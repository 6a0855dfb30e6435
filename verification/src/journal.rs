//! The store handle and the query engine that drives it.
//!
//! A [`Journal`] owns one open cursor over the modelled store: the entry
//! list, the currently applied match set, and the cursor position are its
//! only state. The low-level methods mirror the native capability surface
//! (seek, move-to-previous, read-field, match management) and the
//! high-level methods compile a [`Query`] into matches, traverse the store
//! newest-to-oldest, and project rows.

use vstd::prelude::*;

use crate::journal_fields;
use crate::journal_entries::{JournalEntries, JournalEntry};
use crate::libsdjournal::JournalError;
use crate::filter::{lemma_filter_fields_no_eq, lemma_match_expr, make_match_expr, spec_boot_matches, spec_compiled_matches, spec_pid_matches, spec_priority_matches, spec_slice_matches, spec_transport_matches, spec_unit_matches};
use crate::query::{Query, QueryV};
use crate::query_builder::{spec_default_query, QueryBuilder};
use crate::store::{entry_matches, eq_pos, lemma_eq_pos, match_field, match_group_satisfied, match_valid, match_value, store_wf, MatchV, OpenFlags, StoreEntry, StoreEntryV};
use crate::text::{dec_of, dec_val, is_substring_of, lower_of, parse_u64, str_contains, str_eq, to_lowercase, u64_to_string};

verus! {

/// Native return code for "no entry is current here".
pub const ERR_NO_CURRENT: i32 = -99;

/// Native return code for "no such field on this entry".
pub const ERR_NO_FIELD: i32 = -2;

/// Native return code for an invalid match expression.
pub const ERR_BAD_MATCH: i32 = -22;

/// An exclusively owned open cursor over the store.
pub struct Journal {
    entries: Vec<StoreEntry>,
    match_set: Vec<(String, String)>,
    pos: usize,
    has_current: bool,
    enum_idx: usize,
}

/// The mathematical content of a [`Journal`]: the store's entries, the
/// applied match set, and the cursor.
pub ghost struct JournalV {
    pub entries: Seq<StoreEntryV>,
    pub match_set: Seq<MatchV>,
    pub pos: int,
    pub has_current: bool,
    pub enum_idx: int,
}

impl View for Journal {
    type V = JournalV;

    closed spec fn view(&self) -> JournalV {
        JournalV {
            entries: self.entries.deep_view(),
            match_set: self.match_set.deep_view(),
            pos: self.pos as int,
            has_current: self.has_current,
            enum_idx: self.enum_idx as int,
        }
    }
}

impl JournalV {
    /// A usable handle: well-formed store, cursor within bounds.
    pub open spec fn wf(self) -> bool {
        &&& store_wf(self.entries)
        &&& 0 <= self.pos <= self.entries.len()
        &&& (self.has_current ==> self.pos < self.entries.len())
        &&& 0 <= self.enum_idx
    }
}

/// Where a seek-to-timestamp leaves the cursor: just after every entry
/// received at or before `t`.
pub open spec fn spec_seek_pos(entries: Seq<StoreEntryV>, t: u64) -> int
    decreases entries.len(),
{
    if entries.len() == 0 {
        0
    } else if entries.last().realtime <= t {
        entries.len() as int
    } else {
        spec_seek_pos(entries.drop_last(), t)
    }
}

/// On a sorted store the seek position splits the entries: everything
/// before it was received at or before `t`, everything at or after it
/// later.
pub proof fn lemma_seek_pos_bounds(entries: Seq<StoreEntryV>, t: u64)
    requires
        store_wf(entries),
    ensures
        0 <= spec_seek_pos(entries, t) <= entries.len(),
        forall|i: int|
            0 <= i < spec_seek_pos(entries, t) ==> (#[trigger] entries[i]).realtime <= t,
        forall|i: int|
            spec_seek_pos(entries, t) <= i < entries.len() ==> (#[trigger] entries[i]).realtime
                > t,
    decreases entries.len(),
{
    if entries.len() > 0 {
        if entries.last().realtime <= t {
            assert forall|i: int| 0 <= i < entries.len() implies (#[trigger] entries[i]).realtime
                <= t by {
                if i < entries.len() - 1 {
                    assert(entries[i].realtime < entries[entries.len() - 1].realtime);
                }
            }
        } else {
            let prefix = entries.drop_last();
            assert forall|i: int, j: int| 0 <= i < j < prefix.len() implies (
            #[trigger] prefix[i]).realtime < (#[trigger] prefix[j]).realtime by {
                assert(prefix[i] == entries[i]);
                assert(prefix[j] == entries[j]);
            }
            assert forall|i: int| 0 <= i < prefix.len() implies (#[trigger] prefix[i]).wf() by {
                assert(prefix[i] == entries[i]);
            }
            lemma_seek_pos_bounds(prefix, t);
            let p = spec_seek_pos(prefix, t);
            assert(spec_seek_pos(entries, t) == p);
            assert forall|i: int| 0 <= i < p implies (#[trigger] entries[i]).realtime <= t by {
                assert(entries[i] == prefix[i]);
            }
            assert forall|i: int| p <= i < entries.len() implies (#[trigger] entries[i]).realtime
                > t by {
                if i < entries.len() - 1 {
                    assert(entries[i] == prefix[i]);
                }
            }
        }
    }
}

/// The entry a move-to-previous lands on: the nearest entry older than the
/// cursor that passes the match set, if any.
pub open spec fn spec_prev_match(entries: Seq<StoreEntryV>, ms: Seq<MatchV>, pos: int) -> Option<
    int,
>
    decreases pos,
{
    if pos <= 0 {
        None
    } else if entry_matches(entries[pos - 1], ms) {
        Some(pos - 1)
    } else {
        spec_prev_match(entries, ms, pos - 1)
    }
}

/// What a successful or failed move-to-previous implies.
pub proof fn lemma_prev_match(entries: Seq<StoreEntryV>, ms: Seq<MatchV>, pos: int)
    requires
        pos <= entries.len(),
    ensures
        spec_prev_match(entries, ms, pos) matches Some(i) ==> 0 <= i < pos && entry_matches(
            entries[i],
            ms,
        ),
        spec_prev_match(entries, ms, pos) is None ==> forall|i: int|
            0 <= i < pos ==> !entry_matches(#[trigger] entries[i], ms),
    decreases pos,
{
    if pos > 0 && !entry_matches(entries[pos - 1], ms) {
        lemma_prev_match(entries, ms, pos - 1);
    }
}

/// The "last seen timestamp" watermark after visiting an entry: the
/// entry's source timestamp when it stores one, the previous watermark
/// otherwise. It advances for every visited entry, also for entries that
/// the quick search filters out afterwards.
pub open spec fn spec_source_ts(e: StoreEntryV, wm: u64) -> u64 {
    if e.has_field(journal_fields::SOURCE_REALTIME_TIMESTAMP@) {
        dec_val(e.value_of(journal_fields::SOURCE_REALTIME_TIMESTAMP@)) as u64
    } else {
        wm
    }
}

/// The quick search skips an entry whose lowercased message does not
/// contain the (already lowercased) term. An entry without a readable
/// message is not skipped.
pub open spec fn spec_skipped_by_search(q: QueryV, e: StoreEntryV) -> bool {
    &&& q.quick_search.len() > 0
    &&& e.has_field(journal_fields::MESSAGE@)
    &&& !is_substring_of(q.quick_search, lower_of(e.value_of(journal_fields::MESSAGE@)))
}

/// One projected cell: the virtual receipt-time field comes from the
/// store's dedicated accessor, every other field from generic lookup, and
/// a field the entry does not store yields an empty string rather than an
/// error.
pub open spec fn spec_cell(e: StoreEntryV, f: Seq<char>) -> Seq<char> {
    if f == journal_fields::REALTIME@ {
        dec_of(e.realtime as nat)
    } else if e.has_field(f) {
        e.value_of(f)
    } else {
        Seq::empty()
    }
}

/// One projected row: the configured fields, in configured order.
pub open spec fn spec_row(e: StoreEntryV, fields: Seq<Seq<char>>) -> Seq<Seq<char>> {
    fields.map_values(|f: Seq<char>| spec_cell(e, f))
}

/// The indices of the entries the traversal collects, newest first,
/// starting just below `pos` with `count` rows already collected and
/// watermark `wm`. Per visited matching entry, in this order: the
/// watermark advances unconditionally; a quick-search miss skips the entry
/// without counting it; a reached limit, then a reached lower time bound,
/// stop the traversal; otherwise the entry is collected.
pub open spec fn spec_collect(
    entries: Seq<StoreEntryV>,
    q: QueryV,
    ms: Seq<MatchV>,
    pos: int,
    count: int,
    wm: u64,
) -> Seq<int>
    decreases pos,
{
    if pos <= 0 {
        Seq::empty()
    } else {
        let i = pos - 1;
        if !entry_matches(entries[i], ms) {
            spec_collect(entries, q, ms, i, count, wm)
        } else {
            let wm2 = spec_source_ts(entries[i], wm);
            if spec_skipped_by_search(q, entries[i]) {
                spec_collect(entries, q, ms, i, count, wm2)
            } else if q.limit > 0 && count >= q.limit {
                Seq::empty()
            } else if q.date_more_than > 0 && q.date_more_than >= wm2 {
                Seq::empty()
            } else {
                seq![i] + spec_collect(entries, q, ms, i, count + 1, wm2)
            }
        }
    }
}

/// A move-to-previous jumps over non-matching entries; collecting from
/// `pos` is collecting from just above the entry it lands on.
pub proof fn lemma_collect_step(
    entries: Seq<StoreEntryV>,
    q: QueryV,
    ms: Seq<MatchV>,
    pos: int,
    count: int,
    wm: u64,
)
    ensures
        spec_prev_match(entries, ms, pos) is None ==> spec_collect(entries, q, ms, pos, count, wm)
            == Seq::<int>::empty(),
        spec_prev_match(entries, ms, pos) matches Some(i) ==> spec_collect(
            entries,
            q,
            ms,
            pos,
            count,
            wm,
        ) == spec_collect(entries, q, ms, i + 1, count, wm),
    decreases pos,
{
    if pos > 0 && !entry_matches(entries[pos - 1], ms) {
        lemma_collect_step(entries, q, ms, pos - 1, count, wm);
    }
}

/// Where the traversal starts: at the upper time bound when one is set and
/// the position is reset, at the tail when only the position is reset, and
/// wherever the cursor stands otherwise.
pub open spec fn spec_start_pos(j: JournalV, q: QueryV) -> int {
    if q.reset_position {
        if q.date_less_than > 0 {
            spec_seek_pos(j.entries, q.date_less_than)
        } else {
            j.entries.len() as int
        }
    } else {
        j.pos
    }
}

/// The rows a query produces over a store: the collected entries, newest
/// first, each projected onto the configured fields.
pub open spec fn spec_query_rows(j: JournalV, q: QueryV) -> Seq<Seq<Seq<char>>> {
    spec_collect(
        j.entries,
        q,
        spec_compiled_matches(q),
        spec_start_pos(j, q),
        0,
        0,
    ).map_values(|i: int| spec_row(j.entries[i], q.fields))
}

/// The field/value pairs the materializer keeps from the first `n` stored
/// pairs: all of them except those with an empty name, which stand for
/// fields the store reports as oversized or unsupported.
pub open spec fn spec_kept_fields(fields: Seq<(Seq<char>, Seq<char>)>, n: int) -> Seq<
    (Seq<char>, Seq<char>),
>
    decreases n,
{
    if n <= 0 {
        Seq::empty()
    } else if fields[n - 1].0.len() > 0 {
        spec_kept_fields(fields, n - 1).push(fields[n - 1])
    } else {
        spec_kept_fields(fields, n - 1)
    }
}

/// Everything the materializer reports for one entry.
pub open spec fn spec_full_record(e: StoreEntryV) -> Seq<(Seq<char>, Seq<char>)> {
    spec_kept_fields(e.fields, e.fields.len() as int)
}

/// What the traversal decides for one visited entry.
#[derive(Debug, Clone, Copy, PartialEq, Eq, Structural)]
pub enum StepOutcome {
    /// The quick search misses: the entry is passed over without counting
    /// it toward the limit.
    Skip,
    /// The configured limit is reached: the traversal stops.
    LimitReached,
    /// The watermark fell to or below the lower time bound: the traversal
    /// stops.
    BoundReached,
    /// The entry's fields are projected into a new row.
    Collect,
}

/// The traversal's decision for one visited entry, judged in this order:
/// quick search, then limit, then lower time bound, on the already
/// advanced watermark `wm2`.
pub open spec fn spec_step_outcome(
    q: QueryV,
    count: u64,
    wm2: u64,
    message: Option<Seq<char>>,
) -> StepOutcome {
    if q.quick_search.len() > 0 && (match message {
        Some(m) => !is_substring_of(q.quick_search, lower_of(m)),
        None => false,
    }) {
        StepOutcome::Skip
    } else if q.limit > 0 && count >= q.limit {
        StepOutcome::LimitReached
    } else if q.date_more_than > 0 && q.date_more_than >= wm2 {
        StepOutcome::BoundReached
    } else {
        StepOutcome::Collect
    }
}

/// One traversal decision, for a loop that drives a store the library
/// cannot hold: first the watermark advances to the entry's source
/// timestamp when one was read, unconditionally; then the entry is judged.
/// Returns the new watermark and the decision.
pub fn traversal_step(
    q: &Query,
    count: u64,
    watermark: u64,
    source_ts: Option<u64>,
    message: Option<&String>,
) -> (r: (u64, StepOutcome))
    ensures
        r.0 == (match source_ts {
            Some(v) => v,
            None => watermark,
        }),
        r.1 == spec_step_outcome(
            q@,
            count,
            r.0,
            match message {
                Some(m) => Some::<Seq<char>>(m@),
                None => None::<Seq<char>>,
            },
        ),
{
    let wm2 = match source_ts {
        Some(v) => v,
        None => watermark,
    };
    if !q.quick_search.as_str().is_empty() {
        if let Some(m) = message {
            let lowered = to_lowercase(m.as_str());
            if !str_contains(lowered.as_str(), q.quick_search.as_str()) {
                return (wm2, StepOutcome::Skip);
            }
        }
    }
    if q.limit > 0 && count >= q.limit {
        return (wm2, StepOutcome::LimitReached);
    }
    if q.date_more_than > 0 && q.date_more_than >= wm2 {
        return (wm2, StepOutcome::BoundReached);
    }
    (wm2, StepOutcome::Collect)
}

/// Does the entry store this exact field/value pair?
fn entry_has_pair_exec(e: &StoreEntry, name: &String, value: &String) -> (r: bool)
    ensures
        r == e@.has_pair(name@, value@),
{
    let mut i: usize = 0;
    let n = e.fields.len();
    while i < n
        invariant
            n == e.fields.len(),
            0 <= i <= n,
            forall|k: int|
                0 <= k < i ==> !((#[trigger] e@.fields[k]).0 == name@ && e@.fields[k].1
                    == value@),
        decreases n - i,
    {
        assert(e@.fields[i as int] == (e.fields@[i as int].0@, e.fields@[i as int].1@));
        if str_eq(e.fields[i].0.as_str(), name.as_str()) && str_eq(
            e.fields[i].1.as_str(),
            value.as_str(),
        ) {
            return true;
        }
        i = i + 1;
    }
    false
}

/// Does the entry pass the whole match set, under the store's AND-of-ORs
/// grouping?
fn entry_matches_exec(e: &StoreEntry, ms: &Vec<(String, String)>) -> (r: bool)
    ensures
        r == entry_matches(e@, ms.deep_view()),
{
    let n = ms.len();
    let ghost msv = ms.deep_view();
    assert(msv.len() == n);
    let mut i: usize = 0;
    while i < n
        invariant
            n == ms.len(),
            msv == ms.deep_view(),
            msv.len() == n,
            0 <= i <= n,
            forall|k: int|
                0 <= k < i ==> match_group_satisfied(e@, msv, (#[trigger] msv[k]).0),
        decreases n - i,
    {
        let mut found = false;
        let mut j: usize = 0;
        while j < n
            invariant
                n == ms.len(),
                msv == ms.deep_view(),
                msv.len() == n,
                0 <= i < n,
                0 <= j <= n,
                found ==> match_group_satisfied(e@, msv, msv[i as int].0),
                !found ==> forall|l: int|
                    0 <= l < j ==> !((#[trigger] msv[l]).0 == msv[i as int].0 && e@.has_pair(
                        msv[l].0,
                        msv[l].1,
                    )),
            decreases n - j,
        {
            assert(msv[j as int] == (ms@[j as int].0@, ms@[j as int].1@));
            assert(msv[i as int] == (ms@[i as int].0@, ms@[i as int].1@));
            if !found && str_eq(ms[j].0.as_str(), ms[i].0.as_str()) && entry_has_pair_exec(
                e,
                &ms[j].0,
                &ms[j].1,
            ) {
                found = true;
            }
            j = j + 1;
        }
        if !found {
            assert(!match_group_satisfied(e@, msv, msv[i as int].0));
            assert(!entry_matches(e@, msv));
            return false;
        }
        i = i + 1;
    }
    assert(entry_matches(e@, msv));
    true
}

impl Journal {
    /// Opens a handle on a store with the given content. The flag set
    /// selects which parts of the real store are visible; the model is
    /// handed the visible entries directly.
    #[allow(unused_variables)]
    pub fn open(flags: OpenFlags, entries: Vec<StoreEntry>) -> (r: Result<Journal, JournalError>)
        requires
            store_wf(entries.deep_view()),
        ensures
            r matches Ok(j) && j@ == (JournalV {
                entries: entries.deep_view(),
                match_set: Seq::empty(),
                pos: 0,
                has_current: false,
                enum_idx: 0,
            }),
    {
        let j = Journal {
            entries,
            match_set: Vec::new(),
            pos: 0,
            has_current: false,
            enum_idx: 0,
        };
        proof {
            assert(j.match_set.deep_view() =~= Seq::<MatchV>::empty());
        }
        Ok(j)
    }

    /// Removes every applied match predicate.
    pub fn flush_matches(&mut self)
        ensures
            final(self)@ == (JournalV { match_set: Seq::empty(), ..old(self)@ }),
    {
        self.match_set.clear();
        proof {
            assert(self.match_set.deep_view() =~= Seq::<MatchV>::empty());
        }
    }

    /// Appends one `FIELD=value` predicate to the match set. A malformed
    /// expression is rejected with the native invalid-argument code and
    /// leaves the handle unchanged.
    pub fn add_match(&mut self, data: String) -> (r: Result<(), JournalError>)
        ensures
            match_valid(data@) ==> r is Ok && final(self)@ == (JournalV {
                match_set: old(self)@.match_set.push((match_field(data@), match_value(data@))),
                ..old(self)@
            }),
            !match_valid(data@) ==> r == Err::<(), JournalError>(
                JournalError::Internal(ERR_BAD_MATCH),
            ) && *final(self) == *old(self),
    {
        let s = data.as_str();
        let len = s.unicode_len();
        proof {
            lemma_eq_pos(s@);
        }
        let mut i: usize = 0;
        let mut found = false;
        while !found && i < len
            invariant
                len == s@.len(),
                0 <= i <= len,
                forall|k: int| 0 <= k < i ==> s@[k] != '=',
                found ==> i < len && s@[i as int] == '=',
            decreases len - i, (if found { 0int } else { 1int }),
        {
            if s.get_char(i) == '=' {
                found = true;
            } else {
                i = i + 1;
            }
        }
        if !found || i == 0 {
            proof {
                if !found {
                    // no '=' anywhere, so eq_pos is the length
                    if eq_pos(s@) < len as int {
                        assert(s@[eq_pos(s@)] == '=');
                        assert(false);
                    }
                } else {
                    // '=' found first at position 0
                    assert(eq_pos(s@) == 0);
                }
                assert(!match_valid(data@));
            }
            return Err(JournalError::Internal(ERR_BAD_MATCH));
        }
        proof {
            // the scan stopped on the first '='
            assert(s@[i as int] == '=');
            if eq_pos(s@) < i as int {
                assert(s@[eq_pos(s@)] == '=');
                assert(false);
            }
            if eq_pos(s@) > i as int {
                assert(s@[i as int] != '=');
                assert(false);
            }
        }
        let field = s.substring_char(0, i);
        let value = s.substring_char(i + 1, len);
        self.match_set.push((String::from_str(field), String::from_str(value)));
        proof {
            assert(self.match_set.deep_view() =~= old(self)@.match_set.push(
                (match_field(data@), match_value(data@)),
            ));
        }
        Ok(())
    }

    /// Moves the cursor past the newest entry, so that a move-to-previous
    /// reads the store from its tail.
    pub fn seek_tail(&mut self) -> (r: Result<(), JournalError>)
        ensures
            r is Ok,
            old(self)@.wf() ==> final(self)@.wf(),
            final(self)@ == (JournalV {
                pos: old(self)@.entries.len() as int,
                has_current: false,
                ..old(self)@
            }),
    {
        self.pos = self.entries.len();
        self.has_current = false;
        Ok(())
    }

    /// Moves the cursor to the position of the given receipt timestamp:
    /// just after every entry received at or before it.
    pub fn seek_realtime_usec(&mut self, usec: u64) -> (r: Result<(), JournalError>)
        requires
            old(self)@.wf(),
        ensures
            r is Ok,
            final(self)@.wf(),
            final(self)@ == (JournalV {
                pos: spec_seek_pos(old(self)@.entries, usec),
                has_current: false,
                ..old(self)@
            }),
    {
        proof {
            lemma_seek_pos_bounds(self@.entries, usec);
        }
        let n = self.entries.len();
        let mut p: usize = 0;
        while p < n && self.entries[p].realtime <= usec
            invariant
                *self == *old(self),
                n == old(self)@.entries.len(),
                0 <= p <= n,
                forall|k: int| 0 <= k < p ==> (#[trigger] old(self)@.entries[k]).realtime <= usec,
            decreases n - p,
        {
            p = p + 1;
        }
        proof {
            let sp = spec_seek_pos(self@.entries, usec);
            if (p as int) < sp {
                assert(self@.entries[p as int].realtime <= usec);
                assert(false);
            }
            if sp < p as int {
                assert(self@.entries[sp].realtime > usec);
                assert(false);
            }
        }
        self.pos = p;
        self.has_current = false;
        Ok(())
    }

    /// Moves to the previous (older) entry that passes the match set.
    /// Returns `Ok(false)` when none is left.
    pub fn previous(&mut self) -> (r: Result<bool, JournalError>)
        requires
            old(self)@.wf(),
        ensures
            final(self)@.wf(),
            ({
                let pm = spec_prev_match(old(self)@.entries, old(self)@.match_set, old(self)@.pos);
                match pm {
                    Some(i) => r == Ok::<bool, JournalError>(true) && final(self)@ == (JournalV {
                        pos: i,
                        has_current: true,
                        enum_idx: 0,
                        ..old(self)@
                    }),
                    None => r == Ok::<bool, JournalError>(false) && final(self)@ == (JournalV {
                        has_current: false,
                        ..old(self)@
                    }),
                }
            }),
    {
        let mut p: usize = self.pos;
        while p > 0
            invariant
                *self == *old(self),
                old(self)@.wf(),
                0 <= p <= old(self)@.pos,
                spec_prev_match(old(self)@.entries, old(self)@.match_set, old(self)@.pos)
                    == spec_prev_match(old(self)@.entries, old(self)@.match_set, p as int),
            decreases p,
        {
            assert(self@.entries[p - 1] == self.entries[p - 1]@);
            if entry_matches_exec(&self.entries[p - 1], &self.match_set) {
                self.pos = p - 1;
                self.has_current = true;
                self.enum_idx = 0;
                return Ok(true);
            }
            p = p - 1;
        }
        self.has_current = false;
        Ok(false)
    }

    /// Reads one named field of the current entry. Fails with the native
    /// no-entry code when no entry is current, and with the native
    /// no-such-field code when the entry does not store the field.
    pub fn get_data(&self, field: &str) -> (r: Result<String, JournalError>)
        requires
            self@.wf(),
        ensures
            !self@.has_current ==> r == Err::<String, JournalError>(
                JournalError::Internal(ERR_NO_CURRENT),
            ),
            self@.has_current ==> {
                let e = self@.entries[self@.pos];
                &&& (e.has_field(field@) ==> (r matches Ok(v) && v@ == e.value_of(field@)))
                &&& (!e.has_field(field@) ==> r == Err::<String, JournalError>(
                    JournalError::Internal(ERR_NO_FIELD),
                ))
            },
    {
        if !self.has_current {
            return Err(JournalError::Internal(ERR_NO_CURRENT));
        }
        let e = &self.entries[self.pos];
        let ghost ev = self@.entries[self@.pos];
        assert(ev == e@);
        assert(ev.wf());
        let n = e.fields.len();
        let mut i: usize = 0;
        while i < n
            invariant
                self@.has_current,
                n == e.fields.len(),
                ev == e@,
                ev == self@.entries[self@.pos],
                ev.wf(),
                0 <= i <= n,
                forall|k: int| 0 <= k < i ==> (#[trigger] ev.fields[k]).0 != field@,
            decreases n - i,
        {
            assert(ev.fields[i as int] == (e.fields@[i as int].0@, e.fields@[i as int].1@));
            if str_eq(e.fields[i].0.as_str(), field) {
                let v = e.fields[i].1.clone();
                proof {
                    assert(ev.has_field(field@));
                    let j = choose|j: int|
                        0 <= j < ev.fields.len() && (#[trigger] ev.fields[j]).0 == field@;
                    assert(j == i as int);
                    assert(v@ == ev.value_of(field@));
                }
                return Ok(v);
            }
            i = i + 1;
        }
        assert(!ev.has_field(field@));
        Err(JournalError::Internal(ERR_NO_FIELD))
    }

    /// Reads the receipt timestamp of the current entry through the store's
    /// dedicated accessor.
    pub fn get_realtime_usec(&self) -> (r: Result<u64, JournalError>)
        requires
            self@.wf(),
        ensures
            self@.has_current ==> r == Ok::<u64, JournalError>(
                self@.entries[self@.pos].realtime,
            ),
            !self@.has_current ==> r == Err::<u64, JournalError>(
                JournalError::Internal(ERR_NO_CURRENT),
            ),
    {
        if !self.has_current {
            return Err(JournalError::Internal(ERR_NO_CURRENT));
        }
        Ok(self.entries[self.pos].realtime)
    }

    /// Applies the pid constraint, if one is set. A predicate the store
    /// rejects is skipped, never fatal.
    fn apply_pid_filter(&mut self, q: &Query)
        ensures
            final(self)@ == (JournalV {
                match_set: old(self)@.match_set + spec_pid_matches(q@),
                ..old(self)@
            }),
    {
        if q.pid > 0 {
            let value = u64_to_string(q.pid as u64);
            let query = make_match_expr(journal_fields::PID, value.as_str());
            proof {
                lemma_filter_fields_no_eq();
                lemma_match_expr(journal_fields::PID@, value@);
            }
            if let Err(_e) = self.add_match(query) {
                // a store that rejects one predicate must not abort the query
            }
            proof {
                assert(self@.match_set =~= old(self)@.match_set + spec_pid_matches(q@));
            }
        } else {
            proof {
                assert(old(self)@.match_set + spec_pid_matches(q@) =~= old(self)@.match_set);
            }
        }
    }

    /// Expands the minimum severity into the inclusive OR set {0..minimum}:
    /// severity is an exact-match field in the store, not a range.
    fn apply_minimum_priority(&mut self, q: &Query)
        requires
            q@.minimum_priority <= 7,
        ensures
            final(self)@ == (JournalV {
                match_set: old(self)@.match_set + spec_priority_matches(q@),
                ..old(self)@
            }),
    {
        let mut p: u32 = 0;
        while p <= q.minimum_priority
            invariant
                q@.minimum_priority <= 7,
                0 <= p <= q@.minimum_priority + 1,
                self@ == (JournalV {
                    match_set: old(self)@.match_set + Seq::new(
                        p as nat,
                        |i: int| (journal_fields::PRIORITY@, dec_of(i as nat)),
                    ),
                    ..old(self)@
                }),
            decreases q@.minimum_priority + 1 - p,
        {
            let value = u64_to_string(p as u64);
            let query = make_match_expr(journal_fields::PRIORITY, value.as_str());
            proof {
                lemma_filter_fields_no_eq();
                lemma_match_expr(journal_fields::PRIORITY@, value@);
            }
            if let Err(_e) = self.add_match(query) {
                // skipped predicate, not fatal
            }
            p = p + 1;
            proof {
                assert(Seq::new(p as nat, |i: int| (journal_fields::PRIORITY@, dec_of(i as nat)))
                    =~= Seq::new(
                    (p - 1) as nat,
                    |i: int| (journal_fields::PRIORITY@, dec_of(i as nat)),
                ).push((journal_fields::PRIORITY@, dec_of((p - 1) as nat))));
                assert(self@.match_set =~= old(self)@.match_set + Seq::new(
                    p as nat,
                    |i: int| (journal_fields::PRIORITY@, dec_of(i as nat)),
                ));
            }
        }
        proof {
            assert(self@.match_set =~= old(self)@.match_set + spec_priority_matches(q@));
        }
    }

    /// Applies one predicate per selected unit; the values OR together.
    fn apply_units(&mut self, q: &Query)
        ensures
            final(self)@ == (JournalV {
                match_set: old(self)@.match_set + spec_unit_matches(q@),
                ..old(self)@
            }),
    {
        if !q.units.is_empty() {
            let n = q.units.len();
            let mut i: usize = 0;
            while i < n
                invariant
                    n == q.units.len(),
                    0 <= i <= n,
                    self@ == (JournalV {
                        match_set: old(self)@.match_set + q@.units.subrange(0, i as int).map_values(
                            |u: Seq<char>| (journal_fields::UNIT_FILTER@, u),
                        ),
                        ..old(self)@
                    }),
                decreases n - i,
            {
                let query = make_match_expr(journal_fields::UNIT_FILTER, q.units[i].as_str());
                proof {
                    lemma_filter_fields_no_eq();
                    lemma_match_expr(journal_fields::UNIT_FILTER@, q.units@[i as int]@);
                    assert(q.units@[i as int]@ == q@.units[i as int]);
                }
                if let Err(_e) = self.add_match(query) {
                    // skipped predicate, not fatal
                }
                i = i + 1;
                proof {
                    assert(self@.match_set =~= old(self)@.match_set + q@.units.subrange(
                        0,
                        i as int,
                    ).map_values(|u: Seq<char>| (journal_fields::UNIT_FILTER@, u)));
                }
            }
            proof {
                assert(q@.units.subrange(0, n as int) =~= q@.units);
                assert(self@.match_set =~= old(self)@.match_set + spec_unit_matches(q@));
            }
        } else {
            proof {
                assert(q@.units.len() == 0);
                assert(old(self)@.match_set + spec_unit_matches(q@) =~= old(self)@.match_set);
            }
        }
    }

    /// Applies the slice constraint, if one is set.
    fn apply_slice(&mut self, q: &Query)
        ensures
            final(self)@ == (JournalV {
                match_set: old(self)@.match_set + spec_slice_matches(q@),
                ..old(self)@
            }),
    {
        if !q.slice.as_str().is_empty() {
            let query = make_match_expr(journal_fields::SYSTEMD_SLICE, q.slice.as_str());
            proof {
                lemma_filter_fields_no_eq();
                lemma_match_expr(journal_fields::SYSTEMD_SLICE@, q.slice@);
            }
            if let Err(_e) = self.add_match(query) {
                // skipped predicate, not fatal
            }
            proof {
                assert(self@.match_set =~= old(self)@.match_set + spec_slice_matches(q@));
            }
        } else {
            proof {
                assert(old(self)@.match_set + spec_slice_matches(q@) =~= old(self)@.match_set);
            }
        }
    }

    /// Applies one predicate per selected boot session.
    fn apply_boot_ids(&mut self, q: &Query)
        ensures
            final(self)@ == (JournalV {
                match_set: old(self)@.match_set + spec_boot_matches(q@),
                ..old(self)@
            }),
    {
        if !q.boot_ids.is_empty() {
            let n = q.boot_ids.len();
            let mut i: usize = 0;
            while i < n
                invariant
                    n == q.boot_ids.len(),
                    0 <= i <= n,
                    self@ == (JournalV {
                        match_set: old(self)@.match_set + q@.boot_ids.subrange(
                            0,
                            i as int,
                        ).map_values(|b: Seq<char>| (journal_fields::BOOT_ID@, b)),
                        ..old(self)@
                    }),
                decreases n - i,
            {
                let query = make_match_expr(journal_fields::BOOT_ID, q.boot_ids[i].as_str());
                proof {
                    lemma_filter_fields_no_eq();
                    lemma_match_expr(journal_fields::BOOT_ID@, q.boot_ids@[i as int]@);
                    assert(q.boot_ids@[i as int]@ == q@.boot_ids[i as int]);
                }
                if let Err(_e) = self.add_match(query) {
                    // skipped predicate, not fatal
                }
                i = i + 1;
                proof {
                    assert(self@.match_set =~= old(self)@.match_set + q@.boot_ids.subrange(
                        0,
                        i as int,
                    ).map_values(|b: Seq<char>| (journal_fields::BOOT_ID@, b)));
                }
            }
            proof {
                assert(q@.boot_ids.subrange(0, n as int) =~= q@.boot_ids);
                assert(self@.match_set =~= old(self)@.match_set + spec_boot_matches(q@));
            }
        } else {
            proof {
                assert(q@.boot_ids.len() == 0);
                assert(old(self)@.match_set + spec_boot_matches(q@) =~= old(self)@.match_set);
            }
        }
    }

    /// Applies one predicate per allowed transport.
    fn apply_transports_filter(&mut self, q: &Query)
        ensures
            final(self)@ == (JournalV {
                match_set: old(self)@.match_set + spec_transport_matches(q@),
                ..old(self)@
            }),
    {
        if !q.transports.is_empty() {
            let n = q.transports.len();
            let mut i: usize = 0;
            while i < n
                invariant
                    n == q.transports.len(),
                    0 <= i <= n,
                    self@ == (JournalV {
                        match_set: old(self)@.match_set + q@.transports.subrange(
                            0,
                            i as int,
                        ).map_values(|t: Seq<char>| (journal_fields::TRANSPORT@, t)),
                        ..old(self)@
                    }),
                decreases n - i,
            {
                let query = make_match_expr(journal_fields::TRANSPORT, q.transports[i].as_str());
                proof {
                    lemma_filter_fields_no_eq();
                    lemma_match_expr(journal_fields::TRANSPORT@, q.transports@[i as int]@);
                    assert(q.transports@[i as int]@ == q@.transports[i as int]);
                }
                if let Err(_e) = self.add_match(query) {
                    // skipped predicate, not fatal
                }
                i = i + 1;
                proof {
                    assert(self@.match_set =~= old(self)@.match_set + q@.transports.subrange(
                        0,
                        i as int,
                    ).map_values(|t: Seq<char>| (journal_fields::TRANSPORT@, t)));
                }
            }
            proof {
                assert(q@.transports.subrange(0, n as int) =~= q@.transports);
                assert(self@.match_set =~= old(self)@.match_set + spec_transport_matches(q@));
            }
        } else {
            proof {
                assert(q@.transports.len() == 0);
                assert(old(self)@.match_set + spec_transport_matches(q@) =~= old(self)@.match_set);
            }
        }
    }

    /// Runs a query against the store: flushes the previous match set,
    /// compiles the query into matches, positions the cursor, walks the
    /// store from newest to oldest and projects the configured fields into
    /// rows. Never fails on this store model; the store's end-of-data
    /// signal and unreadable fields are absorbed, never surfaced.
    fn get_logs_internal(&mut self, q: &Query) -> (r: Result<JournalEntries, JournalError>)
        requires
            old(self)@.wf(),
            q@.wf(),
        ensures
            final(self)@.wf(),
            final(self)@.entries == old(self)@.entries,
            final(self)@.match_set == spec_compiled_matches(q@),
            r matches Ok(res) && res.headers.deep_view() == q@.fields && res.rows.deep_view()
                == spec_query_rows(old(self)@, q@),
    {
        self.flush_matches();

        self.apply_pid_filter(q);
        self.apply_minimum_priority(q);
        self.apply_units(q);
        self.apply_slice(q);
        self.apply_boot_ids(q);
        self.apply_transports_filter(q);

        let ghost gentries = self@.entries;
        let ghost ms = spec_compiled_matches(q@);
        proof {
            assert(self@.match_set =~= ms);
        }

        let mut journal_entries = JournalEntries::new(#[verifier::truncate] (q.limit as usize));

        let nf = q.fields.len();
        let mut fi: usize = 0;
        proof {
            assert(journal_entries.headers.deep_view() =~= q@.fields.subrange(0, 0));
            assert(journal_entries.rows.deep_view() =~= Seq::<Seq<Seq<char>>>::empty());
        }
        while fi < nf
            invariant
                nf == q.fields.len(),
                0 <= fi <= nf,
                journal_entries.headers.deep_view() == q@.fields.subrange(0, fi as int),
                journal_entries.rows.deep_view() == Seq::<Seq<Seq<char>>>::empty(),
            decreases nf - fi,
        {
            let h = q.fields[fi].clone();
            let ghost oldhv = journal_entries.headers.deep_view();
            journal_entries.headers.push(h);
            proof {
                assert(journal_entries.headers.deep_view() =~= oldhv.push(q@.fields[fi as int]));
                assert(oldhv.push(q@.fields[fi as int]) =~= q@.fields.subrange(0, fi as int + 1));
            }
            fi = fi + 1;
        }
        proof {
            assert(q@.fields.subrange(0, nf as int) =~= q@.fields);
        }

        if q.reset_position {
            self.seek_tail()?;
        }

        if q.reset_position && q.date_less_than > 0 {
            self.seek_realtime_usec(q.date_less_than)?;
        }

        let ghost pos0 = self@.pos;
        proof {
            assert(pos0 == spec_start_pos(old(self)@, q@));
        }

        let mut count: u64 = 0;
        let mut last_timestamp: u64 = 0;
        let ghost mut done: Seq<int> = Seq::empty();

        proof {
            assert(self@.wf());
            assert(done + spec_collect(gentries, q@, ms, pos0, 0, 0) =~= spec_collect(
                gentries,
                q@,
                ms,
                pos0,
                0,
                0,
            ));
            assert(journal_entries.rows.deep_view() =~= done.map_values(
                |i: int| spec_row(gentries[i], q@.fields),
            ));
        }

        loop
            invariant_except_break
                spec_collect(gentries, q@, ms, pos0, 0, 0) == done + spec_collect(
                    gentries,
                    q@,
                    ms,
                    self@.pos,
                    count as int,
                    last_timestamp,
                ),
            invariant
                self@.wf(),
                self@.entries == gentries,
                self@.match_set == ms,
                q@.wf(),
                nf == q.fields.len(),
                count as int == done.len(),
                count as int == journal_entries.rows@.len(),
                journal_entries.headers.deep_view() == q@.fields,
                journal_entries.rows.deep_view() == done.map_values(
                    |i: int| spec_row(gentries[i], q@.fields),
                ),
                forall|k: int| 0 <= k < done.len() ==> 0 <= #[trigger] done[k] < gentries.len(),
            ensures
                self@.wf(),
                self@.entries == gentries,
                self@.match_set == ms,
                journal_entries.headers.deep_view() == q@.fields,
                journal_entries.rows.deep_view() == spec_collect(
                    gentries,
                    q@,
                    ms,
                    pos0,
                    0,
                    0,
                ).map_values(|i: int| spec_row(gentries[i], q@.fields)),
            decreases self@.pos,
        {
            let ghost pre_pos = self@.pos;
            let ghost wm0 = last_timestamp;
            let ghost count0 = count;

            let more = self.previous()?;
            proof {
                lemma_collect_step(gentries, q@, ms, pre_pos, count0 as int, wm0);
                lemma_prev_match(gentries, ms, pre_pos);
            }

            if !more {
                proof {
                    assert(spec_collect(gentries, q@, ms, pos0, 0, 0) =~= done);
                }
                break ;
            }
            let ghost i = self@.pos;
            proof {
                assert(gentries[i].wf());
                assert(spec_collect(gentries, q@, ms, pre_pos, count0 as int, wm0)
                    == spec_collect(gentries, q@, ms, i + 1, count0 as int, wm0));
            }

            // (ii) advance the watermark, unconditionally per visited entry
            match self.get_data(journal_fields::SOURCE_REALTIME_TIMESTAMP) {
                Ok(updated_timestamp) => {
                    match parse_u64(updated_timestamp.as_str()) {
                        Some(v) => {
                            last_timestamp = v;
                        },
                        None => {
                            proof {
                                assert(false);
                            }
                        },
                    }
                },
                Err(_e) => {
                    // the entry stores no source timestamp: keep the watermark
                },
            }
            proof {
                assert(last_timestamp == spec_source_ts(gentries[i], wm0));
            }

            // (iii) quick search: skip a non-matching entry without counting it
            if !q.quick_search.as_str().is_empty() {
                match self.get_data(journal_fields::MESSAGE) {
                    Ok(message) => {
                        let lowered = to_lowercase(message.as_str());
                        if !str_contains(lowered.as_str(), q.quick_search.as_str()) {
                            proof {
                                assert(spec_skipped_by_search(q@, gentries[i]));
                                assert(spec_collect(gentries, q@, ms, pos0, 0, 0) == done
                                    + spec_collect(
                                    gentries,
                                    q@,
                                    ms,
                                    i,
                                    count as int,
                                    last_timestamp,
                                ));
                            }
                            continue ;
                        }
                    },
                    Err(_e) => {
                        // no readable message: the entry passes
                    },
                }
            }
            proof {
                assert(!spec_skipped_by_search(q@, gentries[i]));
            }

            // (iv) the configured limit
            if q.limit > 0 && count >= q.limit {
                proof {
                    assert(spec_collect(gentries, q@, ms, i + 1, count0 as int, wm0)
                        =~= Seq::<int>::empty());
                    assert(spec_collect(gentries, q@, ms, pos0, 0, 0) =~= done);
                }
                break ;
            }

            // (v) the lower time bound, judged on the watermark
            if q.date_more_than > 0 && q.date_more_than >= last_timestamp {
                proof {
                    assert(spec_collect(gentries, q@, ms, i + 1, count0 as int, wm0)
                        =~= Seq::<int>::empty());
                    assert(spec_collect(gentries, q@, ms, pos0, 0, 0) =~= done);
                }
                break ;
            }

            // (vi) project the configured fields into a new row
            let mut row: Vec<String> = Vec::with_capacity(q.fields.len());
            proof {
                assert(row.deep_view() =~= q@.fields.subrange(0, 0).map_values(
                    |f: Seq<char>| spec_cell(gentries[i], f),
                ));
            }
            let mut fj: usize = 0;
            while fj < nf
                invariant
                    nf == q.fields.len(),
                    0 <= fj <= nf,
                    self@.wf(),
                    self@.has_current,
                    self@.pos == i,
                    self@.entries == gentries,
                    0 <= i < gentries.len(),
                    row.deep_view() == q@.fields.subrange(0, fj as int).map_values(
                        |f: Seq<char>| spec_cell(gentries[i], f),
                    ),
                decreases nf - fj,
            {
                let field = &q.fields[fj];
                proof {
                    assert(q.fields@[fj as int]@ == q@.fields[fj as int]);
                }
                let cell: String;
                if str_eq(field.as_str(), journal_fields::REALTIME) {
                    match self.get_realtime_usec() {
                        Ok(realtime) => {
                            cell = u64_to_string(realtime);
                        },
                        Err(_e) => {
                            proof {
                                assert(false);
                            }
                            cell = String::new();
                        },
                    }
                } else {
                    match self.get_data(field.as_str()) {
                        Ok(data) => {
                            cell = data;
                        },
                        Err(_e) => {
                            // an unreadable field yields an empty cell, never an error
                            cell = String::new();
                        },
                    }
                }
                proof {
                    assert(cell@ == spec_cell(gentries[i], q@.fields[fj as int]));
                }
                let ghost oldrv = row.deep_view();
                row.push(cell);
                proof {
                    assert(row.deep_view() =~= oldrv.push(spec_cell(
                        gentries[i],
                        q@.fields[fj as int],
                    )));
                    assert(oldrv.push(spec_cell(gentries[i], q@.fields[fj as int])) =~= q@.fields
                        .subrange(0, fj as int + 1).map_values(
                        |f: Seq<char>| spec_cell(gentries[i], f),
                    ));
                }
                fj = fj + 1;
            }
            proof {
                assert(q@.fields.subrange(0, nf as int) =~= q@.fields);
                assert(row.deep_view() =~= spec_row(gentries[i], q@.fields));
            }

            let ghost oldrows = journal_entries.rows.deep_view();
            let ghost rowv = row.deep_view();
            journal_entries.rows.push(row);
            proof {
                done = done.push(i);
                assert(journal_entries.rows.deep_view() =~= oldrows.push(rowv));
                assert(oldrows.push(rowv) =~= done.map_values(
                    |k: int| spec_row(gentries[k], q@.fields),
                ));
                assert(spec_collect(gentries, q@, ms, i + 1, count0 as int, wm0) == seq![i]
                    + spec_collect(gentries, q@, ms, i, count0 as int + 1, last_timestamp));
                assert(spec_collect(gentries, q@, ms, pos0, 0, 0) =~= done + spec_collect(
                    gentries,
                    q@,
                    ms,
                    i,
                    count0 as int + 1,
                    last_timestamp,
                ));
            }
            let rl = journal_entries.rows.len();
            proof {
                assert(rl as int == count as int + 1);
            }
            count = count + 1;
        }

        proof {
            assert(journal_entries.rows.deep_view() == spec_query_rows(old(self)@, q@)) by {
                assert(spec_collect(gentries, q@, ms, pos0, 0, 0).map_values(
                    |i: int| spec_row(gentries[i], q@.fields),
                ) =~= spec_query_rows(old(self)@, q@));
            }
        }
        Ok(journal_entries)
    }

    /// Runs the default query: warning-and-more-severe entries from the
    /// default transports, newest first, at most 100 rows.
    pub fn get_logs(&mut self) -> (r: Result<JournalEntries, JournalError>)
        requires
            old(self)@.wf(),
        ensures
            final(self)@.wf(),
            final(self)@.entries == old(self)@.entries,
            final(self)@.match_set == spec_compiled_matches(spec_default_query()),
            r matches Ok(res) && res.headers.deep_view() == spec_default_query().fields
                && res.rows.deep_view() == spec_query_rows(old(self)@, spec_default_query()),
    {
        let q = QueryBuilder::default().build();
        self.get_logs_internal(&q)
    }

    /// Runs one query. Reapplying a new query to a reused handle first
    /// removes every effect of the prior query's filters: the rows depend
    /// only on the store's content and the query.
    pub fn query_logs(&mut self, q: &Query) -> (r: Result<JournalEntries, JournalError>)
        requires
            old(self)@.wf(),
            q@.wf(),
        ensures
            final(self)@.wf(),
            final(self)@.entries == old(self)@.entries,
            final(self)@.match_set == spec_compiled_matches(q@),
            r matches Ok(res) && res.headers.deep_view() == q@.fields && res.rows.deep_view()
                == spec_query_rows(old(self)@, q@),
    {
        self.get_logs_internal(q)
    }

    /// Reads one field of the current entry via generic lookup.
    fn get_field(&self, field: &str) -> (r: Result<String, JournalError>)
        requires
            self@.wf(),
        ensures
            !self@.has_current ==> r == Err::<String, JournalError>(
                JournalError::Internal(ERR_NO_CURRENT),
            ),
            self@.has_current ==> {
                let e = self@.entries[self@.pos];
                &&& (e.has_field(field@) ==> (r matches Ok(v) && v@ == e.value_of(field@)))
                &&& (!e.has_field(field@) ==> r == Err::<String, JournalError>(
                    JournalError::Internal(ERR_NO_FIELD),
                ))
            },
    {
        self.get_data(field)
    }

    /// Seeks to the exact microsecond timestamp and dumps every stored
    /// field of the entry found there, skipping fields the store reports
    /// with an empty name (oversized or unsupported ones). When no entry
    /// sits at exactly that timestamp the call fails with the not-found
    /// condition and returns no partial record.
    pub fn get_full_entry(&mut self, timestamp: u64) -> (r: Result<JournalEntry, JournalError>)
        requires
            old(self)@.wf(),
        ensures
            final(self)@.wf(),
            final(self)@.entries == old(self)@.entries,
            final(self)@.match_set == old(self)@.match_set,
            ({
                let sp = spec_seek_pos(old(self)@.entries, timestamp);
                let pm = spec_prev_match(old(self)@.entries, old(self)@.match_set, sp);
                match pm {
                    None => r == Err::<JournalEntry, JournalError>(JournalError::Internal(0)),
                    Some(i) => {
                        if old(self)@.entries[i].realtime == timestamp {
                            let kept = spec_full_record(old(self)@.entries[i]);
                            &&& r matches Ok(fe)
                            &&& fe.headers.deep_view() == kept.map_values(
                                |p: (Seq<char>, Seq<char>)| p.0,
                            )
                            &&& fe.values.deep_view() == kept.map_values(
                                |p: (Seq<char>, Seq<char>)| p.1,
                            )
                        } else {
                            r == Err::<JournalEntry, JournalError>(JournalError::Internal(0))
                        }
                    },
                }
            }),
    {
        self.seek_realtime_usec(timestamp)?;

        let more = self.previous()?;
        proof {
            lemma_prev_match(self@.entries, self@.match_set, spec_seek_pos(self@.entries, timestamp));
        }

        if !more {
            // nothing at or before the timestamp passes the match set
            return Err(JournalError::Internal(0));
        }

        let ghost i = self@.pos;
        let realtime = match self.get_realtime_usec() {
            Ok(v) => v,
            Err(_e) => {
                proof {
                    assert(false);
                }
                0
            },
        };
        if realtime != timestamp {
            // the seek landed on an older entry: no entry exists at exactly
            // the requested timestamp
            return Err(JournalError::Internal(0));
        }

        let ghost ev = self@.entries[i];
        let mut entry = JournalEntry::new();

        proof {
            assert(entry.headers.deep_view() =~= spec_kept_fields(ev.fields, 0).map_values(
                |p: (Seq<char>, Seq<char>)| p.0,
            ));
            assert(entry.values.deep_view() =~= spec_kept_fields(ev.fields, 0).map_values(
                |p: (Seq<char>, Seq<char>)| p.1,
            ));
        }

        loop
            invariant
                self@.wf(),
                self@.has_current,
                self@.pos == i,
                0 <= i < self@.entries.len(),
                ev == self@.entries[i],
                self@.entries == old(self)@.entries,
                self@.match_set == old(self)@.match_set,
                0 <= self@.enum_idx <= ev.fields.len(),
                entry.headers.deep_view() == spec_kept_fields(
                    ev.fields,
                    self@.enum_idx,
                ).map_values(|p: (Seq<char>, Seq<char>)| p.0),
                entry.values.deep_view() == spec_kept_fields(ev.fields, self@.enum_idx).map_values(
                    |p: (Seq<char>, Seq<char>)| p.1,
                ),
            ensures
                self@.wf(),
                self@.entries == old(self)@.entries,
                self@.match_set == old(self)@.match_set,
                entry.headers.deep_view() == spec_full_record(ev).map_values(
                    |p: (Seq<char>, Seq<char>)| p.0,
                ),
                entry.values.deep_view() == spec_full_record(ev).map_values(
                    |p: (Seq<char>, Seq<char>)| p.1,
                ),
            decreases ev.fields.len() - self@.enum_idx,
        {
            let ghost idx0 = self@.enum_idx;
            match self.enumerate_data() {
                Ok(x) => {
                    if !x.0.as_str().is_empty() {
                        let ghost oldh = entry.headers.deep_view();
                        let ghost oldv = entry.values.deep_view();
                        entry.headers.push(x.0);
                        entry.values.push(x.1);
                        proof {
                            assert(entry.headers.deep_view() =~= oldh.push(
                                ev.fields[idx0].0,
                            ));
                            assert(entry.values.deep_view() =~= oldv.push(ev.fields[idx0].1));
                            assert(spec_kept_fields(ev.fields, idx0 + 1) == spec_kept_fields(
                                ev.fields,
                                idx0,
                            ).push(ev.fields[idx0]));
                            assert(entry.headers.deep_view() =~= spec_kept_fields(
                                ev.fields,
                                idx0 + 1,
                            ).map_values(|p: (Seq<char>, Seq<char>)| p.0));
                            assert(entry.values.deep_view() =~= spec_kept_fields(
                                ev.fields,
                                idx0 + 1,
                            ).map_values(|p: (Seq<char>, Seq<char>)| p.1));
                        }
                    } else {
                        proof {
                            assert(spec_kept_fields(ev.fields, idx0 + 1) == spec_kept_fields(
                                ev.fields,
                                idx0,
                            ));
                        }
                    }
                },
                Err(err) => {
                    match err {
                        JournalError::EndOfFile => {
                            // the end-of-data signal is the normal exit
                            break ;
                        },
                        _ => {
                            proof {
                                assert(false);
                            }
                            return Err(err);
                        },
                    }
                },
            }
        }

        Ok(entry)
    }

    /// Hands out the next stored field/value pair of the current entry, and
    /// the end-of-data signal once every pair has been seen.
    pub fn enumerate_data(&mut self) -> (r: Result<(String, String), JournalError>)
        requires
            old(self)@.wf(),
        ensures
            final(self)@.wf(),
            !old(self)@.has_current ==> r == Err::<(String, String), JournalError>(
                JournalError::Internal(ERR_NO_CURRENT),
            ) && *final(self) == *old(self),
            old(self)@.has_current ==> {
                let e = old(self)@.entries[old(self)@.pos];
                &&& (old(self)@.enum_idx < e.fields.len() ==> (r matches Ok(p)
                    && p.0@ == e.fields[old(self)@.enum_idx].0 && p.1@ == e.fields[old(
                    self,
                )@.enum_idx].1 && final(self)@ == (JournalV {
                    enum_idx: old(self)@.enum_idx + 1,
                    ..old(self)@
                })))
                &&& (old(self)@.enum_idx >= e.fields.len() ==> r == Err::<
                    (String, String),
                    JournalError,
                >(JournalError::EndOfFile) && *final(self) == *old(self))
            },
    {
        if !self.has_current {
            return Err(JournalError::Internal(ERR_NO_CURRENT));
        }
        let e = &self.entries[self.pos];
        if self.enum_idx < e.fields.len() {
            assert(e@.fields[self@.enum_idx] == (
                e.fields@[self@.enum_idx].0@,
                e.fields@[self@.enum_idx].1@,
            ));
            let name = e.fields[self.enum_idx].0.clone();
            let value = e.fields[self.enum_idx].1.clone();
            self.enum_idx = self.enum_idx + 1;
            Ok((name, value))
        } else {
            Err(JournalError::EndOfFile)
        }
    }
}

} // verus!
