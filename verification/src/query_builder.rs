//! A fluent builder that stages caller intent and produces an immutable
//! [`Query`].

use vstd::prelude::*;

use crate::journal_fields;
use crate::query::{Query, QueryV};

verus! {

/// The default projected field list: the full default vocabulary, in the
/// order the columns appear in the output.
pub open spec fn spec_default_fields() -> Seq<Seq<char>> {
    seq![
        journal_fields::MESSAGE@,
        journal_fields::PRIORITY@,
        journal_fields::ERRNO@,
        journal_fields::SOURCE_REALTIME_TIMESTAMP@,
        journal_fields::PID@,
        journal_fields::UID@,
        journal_fields::COMM@,
        journal_fields::SYSTEMD_SLICE@,
        journal_fields::SYSTEMD_UNIT@,
        journal_fields::SYSTEMD_CGROUP@,
        journal_fields::BOOT_ID@,
        journal_fields::TRANSPORT@,
    ]
}

/// The default transport set: syslog, journal and stdout entries.
pub open spec fn spec_default_transports() -> Seq<Seq<char>> {
    seq!["syslog"@, "journal"@, "stdout"@]
}

/// The query a fresh builder stages: warning-and-more-severe entries from
/// the default transports, the default field list, at most 100 rows, no
/// other constraint, starting from the newest entry.
pub open spec fn spec_default_query() -> QueryV {
    QueryV {
        pid: 0,
        fields: spec_default_fields(),
        minimum_priority: 4,
        units: Seq::empty(),
        slice: Seq::empty(),
        limit: 100,
        date_less_than: 0,
        date_more_than: 0,
        transports: spec_default_transports(),
        quick_search: Seq::empty(),
        reset_position: true,
        boot_ids: Seq::empty(),
    }
}

/// A unit name completed for filtering: a name without a `.` refers to a
/// `.service` unit file.
pub open spec fn spec_full_unit(u: Seq<char>) -> Seq<char> {
    if crate::text::is_substring_of("."@, u) {
        u
    } else {
        u + ".service"@
    }
}

/// Staging object for a [`Query`]. `build()` hands out the staged query and
/// resets the builder to its defaults, so one builder serves one query at a
/// time.
pub struct QueryBuilder {
    pub query: Query,
}

impl View for QueryBuilder {
    type V = QueryV;

    open spec fn view(&self) -> QueryV {
        self.query@
    }
}

impl QueryBuilder {
    /// A builder staging the default query.
    pub fn default() -> (r: Self)
        ensures
            r@ == spec_default_query(),
    {
        let mut transports: Vec<String> = Vec::new();
        transports.push(String::from_str("syslog"));
        transports.push(String::from_str("journal"));
        transports.push(String::from_str("stdout"));
        proof {
            assert(transports.deep_view() =~= spec_default_transports());
        }
        let query = Query {
            pid: 0,
            fields: Vec::new(),
            minimum_priority: 4,
            units: Vec::new(),
            slice: String::new(),
            boot_ids: Vec::new(),
            limit: 100,
            transports,
            date_less_than: 0,
            date_more_than: 0,
            quick_search: String::new(),
            reset_position: true,
        };
        let mut qb = QueryBuilder { query };
        qb.with_default_fields();
        proof {
            assert(qb.query.units.deep_view() =~= Seq::<Seq<char>>::empty());
            assert(qb.query.boot_ids.deep_view() =~= Seq::<Seq<char>>::empty());
            assert(qb@ =~= spec_default_query());
        }
        qb
    }

    /// Replaces the projected field list with the default vocabulary.
    pub fn with_default_fields(&mut self) -> (ret: &mut Self)
        ensures
            (*ret)@ == (QueryV { fields: spec_default_fields(), ..old(self)@ }),
            *final(self) == *final(ret),
    {
        self.query.fields.clear();
        self.query.fields.push(String::from_str(journal_fields::MESSAGE));
        self.query.fields.push(String::from_str(journal_fields::PRIORITY));
        self.query.fields.push(String::from_str(journal_fields::ERRNO));
        self.query.fields.push(String::from_str(journal_fields::SOURCE_REALTIME_TIMESTAMP));
        self.query.fields.push(String::from_str(journal_fields::PID));
        self.query.fields.push(String::from_str(journal_fields::UID));
        self.query.fields.push(String::from_str(journal_fields::COMM));
        self.query.fields.push(String::from_str(journal_fields::SYSTEMD_SLICE));
        self.query.fields.push(String::from_str(journal_fields::SYSTEMD_UNIT));
        self.query.fields.push(String::from_str(journal_fields::SYSTEMD_CGROUP));
        self.query.fields.push(String::from_str(journal_fields::BOOT_ID));
        self.query.fields.push(String::from_str(journal_fields::TRANSPORT));
        proof {
            assert(self.query.fields.deep_view() =~= spec_default_fields());
        }
        self
    }

    /// Replaces (never appends to) the projected field list.
    pub fn with_fields(&mut self, fields: Vec<String>) -> (ret: &mut Self)
        ensures
            (*ret)@ == (QueryV { fields: fields.deep_view(), ..old(self)@ }),
            *final(self) == *final(ret),
    {
        self.query.fields = fields;
        self
    }

    /// Replaces the allowed transport set.
    pub fn with_transports(&mut self, transports: Vec<String>) -> (ret: &mut Self)
        ensures
            (*ret)@ == (QueryV { transports: transports.deep_view(), ..old(self)@ }),
            *final(self) == *final(ret),
    {
        self.query.transports = transports;
        self
    }

    /// Constrains entries to one originating process id (0 clears it).
    pub fn with_pid(&mut self, pid: u32) -> (ret: &mut Self)
        ensures
            (*ret)@ == (QueryV { pid: pid, ..old(self)@ }),
            *final(self) == *final(ret),
    {
        self.query.pid = pid;
        self
    }

    /// Caps the number of returned rows (0 = unlimited).
    pub fn with_limit(&mut self, limit: u64) -> (ret: &mut Self)
        ensures
            (*ret)@ == (QueryV { limit: limit, ..old(self)@ }),
            *final(self) == *final(ret),
    {
        self.query.limit = limit;
        self
    }

    /// Sets the case-insensitive message filter; the term is stored
    /// lowercase.
    pub fn with_quick_search(&mut self, quick_search: String) -> (ret: &mut Self)
        ensures
            (*ret)@ == (QueryV {
                quick_search: crate::text::lower_of(quick_search@),
                ..old(self)@
            }),
            *final(self) == *final(ret),
    {
        self.query.quick_search = crate::text::to_lowercase(quick_search.as_str());
        self
    }

    /// Chooses whether the traversal seeks back to the newest entry first.
    pub fn reset_position(&mut self, reset_position: bool) -> (ret: &mut Self)
        ensures
            (*ret)@ == (QueryV { reset_position: reset_position, ..old(self)@ }),
            *final(self) == *final(ret),
    {
        self.query.reset_position = reset_position;
        self
    }

    /// Upper time bound, microseconds since the epoch (0 = unset).
    pub fn with_date_less_than(&mut self, from_epoch: u64) -> (ret: &mut Self)
        ensures
            (*ret)@ == (QueryV { date_less_than: from_epoch, ..old(self)@ }),
            *final(self) == *final(ret),
    {
        self.query.date_less_than = from_epoch;
        self
    }

    /// Lower time bound, microseconds since the epoch (0 = unset).
    pub fn with_date_more_than(&mut self, to_epoch: u64) -> (ret: &mut Self)
        ensures
            (*ret)@ == (QueryV { date_more_than: to_epoch, ..old(self)@ }),
            *final(self) == *final(ret),
    {
        self.query.date_more_than = to_epoch;
        self
    }

    /// Lower time bound under its historical name.
    pub fn with_date_from(&mut self, from_epoch: u64) -> (ret: &mut Self)
        ensures
            (*ret)@ == (QueryV { date_more_than: from_epoch, ..old(self)@ }),
            *final(self) == *final(ret),
    {
        self.query.date_more_than = from_epoch;
        self
    }

    /// Sets the least severe severity still reported; values above 7 clamp
    /// to 7 rather than fail.
    pub fn with_priority_above_or_equal_to(&mut self, minimum_priority: u32) -> (ret: &mut Self)
        ensures
            (*ret)@ == (QueryV {
                minimum_priority: if minimum_priority > 7 { 7u32 } else { minimum_priority },
                ..old(self)@
            }),
            *final(self) == *final(ret),
    {
        if minimum_priority > 7 {
            self.query.minimum_priority = 7;
        } else {
            self.query.minimum_priority = minimum_priority;
        }
        self
    }

    /// Replaces the unit-name filter list.
    pub fn with_units(&mut self, units: Vec<String>) -> (ret: &mut Self)
        ensures
            (*ret)@ == (QueryV { units: units.deep_view(), ..old(self)@ }),
            *final(self) == *final(ret),
    {
        self.query.units = units;
        self
    }

    /// Constrains entries to one systemd slice.
    pub fn within_slice(&mut self, slice: &str) -> (ret: &mut Self)
        ensures
            (*ret)@ == (QueryV { slice: slice@, ..old(self)@ }),
            *final(self) == *final(ret),
    {
        self.query.slice = String::from_str(slice);
        self
    }

    /// Constrains entries to one unit, completing a bare name to a
    /// `.service` unit file name.
    pub fn with_unit(&mut self, unit: &str) -> (ret: &mut Self)
        ensures
            (*ret)@ == (QueryV { units: seq![spec_full_unit(unit@)], ..old(self)@ }),
            *final(self) == *final(ret),
    {
        let mut full_unit = String::from_str(unit);
        if !crate::text::str_contains(unit, ".") {
            full_unit.append(".service");
        }
        let mut units: Vec<String> = Vec::new();
        units.push(full_unit);
        proof {
            assert(units.deep_view() =~= seq![spec_full_unit(unit@)]);
        }
        self.query.units = units;
        self
    }

    /// Sets the least severe severity still reported, rejecting values
    /// above the store's 0..=7 scale instead of clamping them.
    pub fn with_priority_above(&mut self, minimum_priority: u32) -> (ret: Result<
        &Self,
        &'static str,
    >)
        ensures
            minimum_priority > 7 ==> ret is Err && *final(self) == *old(self),
            minimum_priority <= 7 ==> ret is Ok && final(self)@ == (QueryV {
                minimum_priority: minimum_priority,
                ..old(self)@
            }),
    {
        if minimum_priority > 7 {
            return Err("The highest priority is 7");
        }
        self.query.minimum_priority = minimum_priority;
        Ok(self)
    }

    /// Replaces the boot-identifier filter list.
    pub fn with_boot_ids(&mut self, boot_ids: Vec<String>) -> (ret: &mut Self)
        ensures
            (*ret)@ == (QueryV { boot_ids: boot_ids.deep_view(), ..old(self)@ }),
            *final(self) == *final(ret),
    {
        self.query.boot_ids = boot_ids;
        self
    }

    /// Constrains entries to one boot session.
    pub fn with_boot_id(&mut self, boot_id: &str) -> (ret: &mut Self)
        ensures
            (*ret)@ == (QueryV { boot_ids: seq![boot_id@], ..old(self)@ }),
            *final(self) == *final(ret),
    {
        let mut ids: Vec<String> = Vec::new();
        ids.push(String::from_str(boot_id));
        proof {
            assert(ids.deep_view() =~= seq![boot_id@]);
        }
        self.query.boot_ids = ids;
        self
    }

    /// Hands out the staged query and resets the builder to its defaults.
    pub fn build(&mut self) -> (q: Query)
        ensures
            q@ == old(self)@,
            final(self)@ == spec_default_query(),
    {
        let mut qb = QueryBuilder::default();
        core::mem::swap(self, &mut qb);
        qb.query
    }
}

} // verus!
