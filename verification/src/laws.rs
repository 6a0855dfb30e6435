//! The engine's guarantees, stated and proved once over the traversal
//! specification: bounded row counts, descending order, complete rows,
//! faithful filtering, and independence from a reused handle's prior
//! filters.

use vstd::prelude::*;

use crate::journal::{
    spec_collect, spec_prev_match, spec_query_rows, spec_row, spec_seek_pos, spec_skipped_by_search,
    spec_source_ts, JournalV,
};
use crate::journal_fields;
use crate::query::QueryV;
use crate::store::{entry_matches, lemma_empty_matches, store_wf, MatchV, StoreEntryV};
use crate::text::dec_val;

verus! {

/// What holds of every collected entry, by induction over the traversal:
/// collected indices lie below the start and strictly descend; every
/// collected entry passes the match set and the quick search; a positive
/// limit is never exceeded; and with a lower time bound set, a collected
/// entry's own source timestamp lies strictly above the bound.
pub proof fn lemma_collect_props(
    entries: Seq<StoreEntryV>,
    q: QueryV,
    ms: Seq<MatchV>,
    pos: int,
    count: int,
    wm: u64,
)
    requires
        store_wf(entries),
        pos <= entries.len(),
        count >= 0,
    ensures
        ({
            let c = spec_collect(entries, q, ms, pos, count, wm);
            &&& forall|k: int| 0 <= k < c.len() ==> 0 <= #[trigger] c[k] < pos
            &&& forall|k1: int, k2: int|
                #![trigger c[k1], c[k2]]
                0 <= k1 < k2 < c.len() ==> c[k1] > c[k2]
            &&& forall|k: int| 0 <= k < c.len() ==> entry_matches(entries[#[trigger] c[k]], ms)
            &&& forall|k: int|
                0 <= k < c.len() ==> !spec_skipped_by_search(q, entries[#[trigger] c[k]])
            &&& (q.limit > 0 && count <= q.limit ==> c.len() + count <= q.limit)
            &&& (q.date_more_than > 0 ==> forall|k: int|
                0 <= k < c.len() ==> ((#[trigger] entries[c[k]]).has_field(
                    journal_fields::SOURCE_REALTIME_TIMESTAMP@,
                ) ==> dec_val(
                    entries[c[k]].value_of(journal_fields::SOURCE_REALTIME_TIMESTAMP@),
                ) > q.date_more_than))
        }),
    decreases pos,
{
    if pos > 0 {
        let i = pos - 1;
        if !entry_matches(entries[i], ms) {
            lemma_collect_props(entries, q, ms, i, count, wm);
            assert(spec_collect(entries, q, ms, pos, count, wm) == spec_collect(
                entries,
                q,
                ms,
                i,
                count,
                wm,
            ));
        } else {
            let wm2 = spec_source_ts(entries[i], wm);
            if spec_skipped_by_search(q, entries[i]) {
                lemma_collect_props(entries, q, ms, i, count, wm2);
                assert(spec_collect(entries, q, ms, pos, count, wm) == spec_collect(
                    entries,
                    q,
                    ms,
                    i,
                    count,
                    wm2,
                ));
            } else if q.limit > 0 && count >= q.limit {
                assert(spec_collect(entries, q, ms, pos, count, wm).len() == 0);
            } else if q.date_more_than > 0 && q.date_more_than >= wm2 {
                assert(spec_collect(entries, q, ms, pos, count, wm).len() == 0);
            } else {
                lemma_collect_props(entries, q, ms, i, count + 1, wm2);
                let c = spec_collect(entries, q, ms, pos, count, wm);
                let c2 = spec_collect(entries, q, ms, i, count + 1, wm2);
                assert(c == seq![i] + c2);
                assert(c[0] == i);
                assert(forall|k: int| 1 <= k < c.len() ==> #[trigger] c[k] == c2[k - 1]);
                if q.date_more_than > 0 && entries[i].has_field(
                    journal_fields::SOURCE_REALTIME_TIMESTAMP@,
                ) {
                    assert(entries[i].wf());
                    assert(wm2 == dec_val(
                        entries[i].value_of(journal_fields::SOURCE_REALTIME_TIMESTAMP@),
                    ));
                }
                assert forall|k: int| 0 <= k < c.len() implies 0 <= #[trigger] c[k] < pos by {
                    if k >= 1 {
                        assert(c[k] == c2[k - 1]);
                    }
                }
                assert forall|k1: int, k2: int|
                    #![trigger c[k1], c[k2]]
                    0 <= k1 < k2 < c.len() implies c[k1] > c[k2] by {
                    assert(c[k2] == c2[k2 - 1]);
                    if k1 >= 1 {
                        assert(c[k1] == c2[k1 - 1]);
                    } else {
                        assert(c[k1] == i);
                        assert(0 <= c2[k2 - 1] < i);
                    }
                }
                assert forall|k: int| 0 <= k < c.len() implies entry_matches(
                    entries[#[trigger] c[k]],
                    ms,
                ) by {
                    if k >= 1 {
                        assert(c[k] == c2[k - 1]);
                    }
                }
                assert forall|k: int| 0 <= k < c.len() implies !spec_skipped_by_search(
                    q,
                    entries[#[trigger] c[k]],
                ) by {
                    if k >= 1 {
                        assert(c[k] == c2[k - 1]);
                    }
                }
                if q.date_more_than > 0 {
                    assert forall|k: int| 0 <= k < c.len() implies ((#[trigger] entries[c[k]]).has_field(
                        journal_fields::SOURCE_REALTIME_TIMESTAMP@,
                    ) ==> dec_val(
                        entries[c[k]].value_of(journal_fields::SOURCE_REALTIME_TIMESTAMP@),
                    ) > q.date_more_than) by {
                        if k >= 1 {
                            assert(c[k] == c2[k - 1]);
                        }
                    }
                }
            }
        }
    } else {
        assert(spec_collect(entries, q, ms, pos, count, wm).len() == 0);
    }
}

/// With a positive limit `N`, a query returns at most `N` rows.
pub proof fn lemma_limit_bounds_rows(j: JournalV, q: QueryV)
    requires
        j.wf(),
        q.limit > 0,
    ensures
        spec_query_rows(j, q).len() <= q.limit,
{
    let ms = crate::filter::spec_compiled_matches(q);
    let pos = crate::journal::spec_start_pos(j, q);
    if q.reset_position && q.date_less_than > 0 {
        crate::journal::lemma_seek_pos_bounds(j.entries, q.date_less_than);
    }
    lemma_collect_props(j.entries, q, ms, pos, 0, 0);
}

/// Every row has exactly one cell per projected field, in order.
pub proof fn lemma_rows_match_headers(j: JournalV, q: QueryV)
    ensures
        forall|k: int|
            0 <= k < spec_query_rows(j, q).len() ==> (#[trigger] spec_query_rows(j, q)[k]).len()
                == q.fields.len(),
{
    let c = spec_collect(
        j.entries,
        q,
        crate::filter::spec_compiled_matches(q),
        crate::journal::spec_start_pos(j, q),
        0,
        0,
    );
    assert forall|k: int| 0 <= k < spec_query_rows(j, q).len() implies (#[trigger] spec_query_rows(
        j,
        q,
    )[k]).len() == q.fields.len() by {
        assert(spec_query_rows(j, q)[k] == spec_row(j.entries[c[k]], q.fields));
    }
}

/// Completeness of the traversal: without a limit and without a lower
/// time bound, every entry below the start that passes the match set and
/// the quick search is collected.
pub proof fn lemma_collect_complete(
    entries: Seq<StoreEntryV>,
    q: QueryV,
    ms: Seq<MatchV>,
    pos: int,
    count: int,
    wm: u64,
)
    requires
        pos <= entries.len(),
        q.limit == 0,
        q.date_more_than == 0,
    ensures
        forall|i: int|
            0 <= i < pos && entry_matches(#[trigger] entries[i], ms) && !spec_skipped_by_search(
                q,
                entries[i],
            ) ==> spec_collect(entries, q, ms, pos, count, wm).contains(i),
    decreases pos,
{
    if pos > 0 {
        let i = pos - 1;
        let c = spec_collect(entries, q, ms, pos, count, wm);
        if !entry_matches(entries[i], ms) {
            lemma_collect_complete(entries, q, ms, i, count, wm);
            assert(c == spec_collect(entries, q, ms, i, count, wm));
        } else {
            let wm2 = spec_source_ts(entries[i], wm);
            if spec_skipped_by_search(q, entries[i]) {
                lemma_collect_complete(entries, q, ms, i, count, wm2);
                assert(c == spec_collect(entries, q, ms, i, count, wm2));
            } else {
                lemma_collect_complete(entries, q, ms, i, count + 1, wm2);
                let c2 = spec_collect(entries, q, ms, i, count + 1, wm2);
                assert(c == seq![i] + c2);
                assert(c[0] == i);
                assert forall|t: int|
                    0 <= t < pos && entry_matches(#[trigger] entries[t], ms)
                        && !spec_skipped_by_search(q, entries[t]) implies c.contains(t) by {
                    if t == i {
                        assert(c[0] == t);
                    } else {
                        assert(c2.contains(t));
                        let k = choose|k: int| 0 <= k < c2.len() && c2[k] == t;
                        assert(c[k + 1] == t);
                    }
                }
            }
        }
    }
}

/// Exactness of an unbounded query: with no limit and no lower time
/// bound, the rows are exactly the matching, searched entries — one row,
/// in place, for every store entry below the start that passes the match
/// set and the quick search.
pub proof fn lemma_unbounded_query_exact(j: JournalV, q: QueryV)
    requires
        j.wf(),
        q.limit == 0,
        q.date_more_than == 0,
    ensures
        ({
            let ms = crate::filter::spec_compiled_matches(q);
            let pos = crate::journal::spec_start_pos(j, q);
            let c = spec_collect(j.entries, q, ms, pos, 0, 0);
            &&& spec_query_rows(j, q).len() == c.len()
            &&& forall|i: int|
                0 <= i < pos && entry_matches(#[trigger] j.entries[i], ms)
                    && !spec_skipped_by_search(q, j.entries[i]) ==> c.contains(i)
            &&& forall|k: int|
                0 <= k < c.len() ==> 0 <= #[trigger] c[k] < pos && entry_matches(
                    j.entries[c[k]],
                    ms,
                ) && !spec_skipped_by_search(q, j.entries[c[k]]) && spec_query_rows(j, q)[k]
                    == spec_row(j.entries[c[k]], q.fields)
        }),
{
    let ms = crate::filter::spec_compiled_matches(q);
    let pos = crate::journal::spec_start_pos(j, q);
    if q.reset_position && q.date_less_than > 0 {
        crate::journal::lemma_seek_pos_bounds(j.entries, q.date_less_than);
    }
    lemma_collect_props(j.entries, q, ms, pos, 0, 0);
    lemma_collect_complete(j.entries, q, ms, pos, 0, 0);
}

/// The projected field names the laws speak of are distinct from the
/// virtual receipt-time field.
proof fn lemma_projected_fields_distinct()
    ensures
        journal_fields::SOURCE_REALTIME_TIMESTAMP@ != journal_fields::REALTIME@,
        journal_fields::MESSAGE@ != journal_fields::REALTIME@,
        journal_fields::PRIORITY@ != journal_fields::REALTIME@,
{
    reveal_strlit("_SOURCE_REALTIME_TIMESTAMP");
    reveal_strlit("MESSAGE");
    reveal_strlit("PRIORITY");
    reveal_strlit("__REALTIME");
    assert(journal_fields::SOURCE_REALTIME_TIMESTAMP@.len() == 26);
    assert(journal_fields::MESSAGE@.len() == 7);
    assert(journal_fields::PRIORITY@.len() == 8);
    assert(journal_fields::REALTIME@.len() == 10);
}

/// A store whose entries all carry a source timestamp, in the same strict
/// order as their receipt order.
pub open spec fn source_ts_strict(entries: Seq<StoreEntryV>) -> bool {
    &&& forall|i: int|
        0 <= i < entries.len() ==> (#[trigger] entries[i]).has_field(
            journal_fields::SOURCE_REALTIME_TIMESTAMP@,
        )
    &&& forall|i: int, j: int|
        #![trigger entries[i], entries[j]]
        0 <= i < j < entries.len() ==> dec_val(
            entries[i].value_of(journal_fields::SOURCE_REALTIME_TIMESTAMP@),
        ) < dec_val(entries[j].value_of(journal_fields::SOURCE_REALTIME_TIMESTAMP@))
}

/// When the traversal resets to the newest entry, rows come out strictly
/// descending by their source timestamp (`fx` is the timestamp column).
pub proof fn lemma_rows_descending(j: JournalV, q: QueryV, fx: int)
    requires
        j.wf(),
        q.reset_position,
        source_ts_strict(j.entries),
        0 <= fx < q.fields.len(),
        q.fields[fx] == journal_fields::SOURCE_REALTIME_TIMESTAMP@,
    ensures
        ({
            let rows = spec_query_rows(j, q);
            forall|k1: int, k2: int|
                #![trigger rows[k1], rows[k2]]
                0 <= k1 < k2 < rows.len() ==> dec_val(rows[k2][fx]) < dec_val(rows[k1][fx])
        }),
{
    let ms = crate::filter::spec_compiled_matches(q);
    let pos = crate::journal::spec_start_pos(j, q);
    if q.date_less_than > 0 {
        crate::journal::lemma_seek_pos_bounds(j.entries, q.date_less_than);
    }
    lemma_collect_props(j.entries, q, ms, pos, 0, 0);
    lemma_projected_fields_distinct();
    let c = spec_collect(j.entries, q, ms, pos, 0, 0);
    let rows = spec_query_rows(j, q);
    assert forall|k1: int, k2: int|
        #![trigger rows[k1], rows[k2]]
        0 <= k1 < k2 < rows.len() implies dec_val(rows[k2][fx]) < dec_val(rows[k1][fx]) by {
        let i1 = c[k1];
        let i2 = c[k2];
        assert(rows[k1] == spec_row(j.entries[i1], q.fields));
        assert(rows[k2] == spec_row(j.entries[i2], q.fields));
        assert(rows[k1][fx] == j.entries[i1].value_of(
            journal_fields::SOURCE_REALTIME_TIMESTAMP@,
        ));
        assert(rows[k2][fx] == j.entries[i2].value_of(
            journal_fields::SOURCE_REALTIME_TIMESTAMP@,
        ));
        assert(i2 < i1);
    }
}

/// With a quick-search term set, every returned row's message contains the
/// term case-insensitively (`mx` is the message column).
pub proof fn lemma_quick_search_rows(j: JournalV, q: QueryV, mx: int)
    requires
        j.wf(),
        q.quick_search.len() > 0,
        forall|i: int|
            0 <= i < j.entries.len() ==> (#[trigger] j.entries[i]).has_field(
                journal_fields::MESSAGE@,
            ),
        0 <= mx < q.fields.len(),
        q.fields[mx] == journal_fields::MESSAGE@,
    ensures
        ({
            let rows = spec_query_rows(j, q);
            forall|k: int|
                0 <= k < rows.len() ==> crate::text::is_substring_of(
                    q.quick_search,
                    crate::text::lower_of(#[trigger] rows[k][mx]),
                )
        }),
{
    let ms = crate::filter::spec_compiled_matches(q);
    let pos = crate::journal::spec_start_pos(j, q);
    if q.reset_position && q.date_less_than > 0 {
        crate::journal::lemma_seek_pos_bounds(j.entries, q.date_less_than);
    }
    lemma_collect_props(j.entries, q, ms, pos, 0, 0);
    lemma_projected_fields_distinct();
    let c = spec_collect(j.entries, q, ms, pos, 0, 0);
    let rows = spec_query_rows(j, q);
    assert forall|k: int| 0 <= k < rows.len() implies crate::text::is_substring_of(
        q.quick_search,
        crate::text::lower_of(#[trigger] rows[k][mx]),
    ) by {
        let i = c[k];
        assert(!spec_skipped_by_search(q, j.entries[i]));
        assert(j.entries[i].has_field(journal_fields::MESSAGE@));
        assert(rows[k] == spec_row(j.entries[i], q.fields));
        assert(rows[k][mx] == j.entries[i].value_of(journal_fields::MESSAGE@));
    }
}

/// With a lower time bound X, no returned row carries a source timestamp
/// at or below X (`fx` is the timestamp column).
pub proof fn lemma_lower_bound_rows(j: JournalV, q: QueryV, fx: int)
    requires
        j.wf(),
        q.date_more_than > 0,
        forall|i: int|
            0 <= i < j.entries.len() ==> (#[trigger] j.entries[i]).has_field(
                journal_fields::SOURCE_REALTIME_TIMESTAMP@,
            ),
        0 <= fx < q.fields.len(),
        q.fields[fx] == journal_fields::SOURCE_REALTIME_TIMESTAMP@,
    ensures
        ({
            let rows = spec_query_rows(j, q);
            forall|k: int|
                0 <= k < rows.len() ==> dec_val(#[trigger] rows[k][fx]) > q.date_more_than
        }),
{
    let ms = crate::filter::spec_compiled_matches(q);
    let pos = crate::journal::spec_start_pos(j, q);
    if q.reset_position && q.date_less_than > 0 {
        crate::journal::lemma_seek_pos_bounds(j.entries, q.date_less_than);
    }
    lemma_collect_props(j.entries, q, ms, pos, 0, 0);
    lemma_projected_fields_distinct();
    let c = spec_collect(j.entries, q, ms, pos, 0, 0);
    let rows = spec_query_rows(j, q);
    assert forall|k: int| 0 <= k < rows.len() implies dec_val(#[trigger] rows[k][fx])
        > q.date_more_than by {
        let i = c[k];
        assert(j.entries[i].has_field(journal_fields::SOURCE_REALTIME_TIMESTAMP@));
        assert(rows[k] == spec_row(j.entries[i], q.fields));
        assert(rows[k][fx] == j.entries[i].value_of(
            journal_fields::SOURCE_REALTIME_TIMESTAMP@,
        ));
    }
}

/// The severity field name differs from every other field name the
/// compiler emits.
proof fn lemma_priority_field_distinct()
    ensures
        journal_fields::PRIORITY@ != journal_fields::PID@,
        journal_fields::PRIORITY@ != journal_fields::UNIT_FILTER@,
        journal_fields::PRIORITY@ != journal_fields::SYSTEMD_SLICE@,
        journal_fields::PRIORITY@ != journal_fields::BOOT_ID@,
        journal_fields::PRIORITY@ != journal_fields::TRANSPORT@,
{
    reveal_strlit("PRIORITY");
    reveal_strlit("_PID");
    reveal_strlit("UNIT");
    reveal_strlit("_SYSTEMD_SLICE");
    reveal_strlit("_BOOT_ID");
    reveal_strlit("_TRANSPORT");
    assert(journal_fields::PRIORITY@.len() == 8);
    assert(journal_fields::PID@.len() == 4);
    assert(journal_fields::UNIT_FILTER@.len() == 4);
    assert(journal_fields::SYSTEMD_SLICE@.len() == 14);
    assert(journal_fields::BOOT_ID@.len() == 8);
    assert(journal_fields::TRANSPORT@.len() == 10);
    assert(journal_fields::PRIORITY@[0] == 'P');
    assert(journal_fields::BOOT_ID@[0] == '_');
}

/// A minimum severity of `m` yields only rows whose severity lies in
/// {0..m} (`px` is the severity column).
pub proof fn lemma_priority_rows(j: JournalV, q: QueryV, px: int)
    requires
        j.wf(),
        q.wf(),
        0 <= px < q.fields.len(),
        q.fields[px] == journal_fields::PRIORITY@,
    ensures
        ({
            let rows = spec_query_rows(j, q);
            forall|k: int|
                0 <= k < rows.len() ==> crate::text::is_dec_string(#[trigger] rows[k][px])
                    && dec_val(rows[k][px]) <= q.minimum_priority
        }),
{
    let ms = crate::filter::spec_compiled_matches(q);
    let pos = crate::journal::spec_start_pos(j, q);
    if q.reset_position && q.date_less_than > 0 {
        crate::journal::lemma_seek_pos_bounds(j.entries, q.date_less_than);
    }
    lemma_collect_props(j.entries, q, ms, pos, 0, 0);
    lemma_projected_fields_distinct();
    lemma_priority_field_distinct();
    let mspid = crate::filter::spec_pid_matches(q);
    let msprio = crate::filter::spec_priority_matches(q);
    let msunit = crate::filter::spec_unit_matches(q);
    let msslice = crate::filter::spec_slice_matches(q);
    let msboot = crate::filter::spec_boot_matches(q);
    let mstrans = crate::filter::spec_transport_matches(q);
    let a = mspid.len() as int;
    let b = msprio.len() as int;
    let c = spec_collect(j.entries, q, ms, pos, 0, 0);
    let rows = spec_query_rows(j, q);
    assert forall|k: int| 0 <= k < rows.len() implies crate::text::is_dec_string(
        #[trigger] rows[k][px],
    ) && dec_val(rows[k][px]) <= q.minimum_priority by {
        let e = j.entries[c[k]];
        assert(e.wf());
        assert(entry_matches(e, ms));
        // the severity group is never empty, so the match set constrains it
        assert(ms[a] == msprio[0]);
        assert(ms[a].0 == journal_fields::PRIORITY@);
        assert(crate::store::match_group_satisfied(e, ms, ms[a].0));
        let jj = choose|jj: int|
            0 <= jj < ms.len() && (#[trigger] ms[jj]).0 == journal_fields::PRIORITY@
                && e.has_pair(ms[jj].0, ms[jj].1);
        // only the severity segment of the compiled match list carries the
        // severity field name
        if jj < a {
            assert(ms[jj] == mspid[jj]);
            assert(false);
        }
        if a + b <= jj {
            let rest = jj - a - b;
            if rest < msunit.len() {
                assert(ms[jj] == msunit[rest]);
                assert(false);
            } else if rest - msunit.len() < msslice.len() {
                assert(ms[jj] == msslice[rest - msunit.len()]);
                assert(false);
            } else if rest - msunit.len() - msslice.len() < msboot.len() {
                assert(ms[jj] == msboot[rest - msunit.len() - msslice.len()]);
                assert(false);
            } else {
                assert(ms[jj] == mstrans[rest - msunit.len() - msslice.len() - msboot.len()]);
                assert(false);
            }
        }
        let p = jj - a;
        assert(ms[jj] == msprio[p]);
        assert(ms[jj].1 == crate::text::dec_of(p as nat));
        assert(0 <= p <= q.minimum_priority);
        assert(e.has_pair(journal_fields::PRIORITY@, crate::text::dec_of(p as nat)));
        assert(e.has_field(journal_fields::PRIORITY@));
        // unique field names pin the stored severity down to that value
        let l = choose|l: int|
            0 <= l < e.fields.len() && (#[trigger] e.fields[l]).0 == journal_fields::PRIORITY@
                && e.fields[l].1 == crate::text::dec_of(p as nat);
        let l2 = choose|l2: int|
            0 <= l2 < e.fields.len() && (#[trigger] e.fields[l2]).0 == journal_fields::PRIORITY@;
        assert(l == l2);
        assert(e.value_of(journal_fields::PRIORITY@) == crate::text::dec_of(p as nat));
        assert(rows[k] == spec_row(e, q.fields));
        assert(rows[k][px] == crate::text::dec_of(p as nat));
        crate::text::lemma_dec_of_val(p as nat);
    }
}

/// Reapplying a new query to a reused handle removes all effects of the
/// prior query's filters: the rows depend only on the store's content and
/// cursor, never on a previously applied match set.
pub proof fn lemma_no_filter_bleed(j1: JournalV, j2: JournalV, q: QueryV)
    requires
        j1.entries == j2.entries,
        j1.pos == j2.pos,
    ensures
        spec_query_rows(j1, q) == spec_query_rows(j2, q),
{
    assert(spec_query_rows(j1, q) =~= spec_query_rows(j2, q));
}

/// A timestamp at which no entry sits: the entry a full-record fetch would
/// land on (if any) carries a different receipt time, so the fetch reports
/// not-found and never a partial record.
pub proof fn lemma_fetch_full_not_found(j: JournalV, ts: u64)
    requires
        j.wf(),
        forall|i: int| 0 <= i < j.entries.len() ==> (#[trigger] j.entries[i]).realtime != ts,
    ensures
        match spec_prev_match(j.entries, j.match_set, spec_seek_pos(j.entries, ts)) {
            None => true,
            Some(i) => 0 <= i < j.entries.len() && j.entries[i].realtime != ts,
        },
{
    crate::journal::lemma_seek_pos_bounds(j.entries, ts);
    crate::journal::lemma_prev_match(j.entries, j.match_set, spec_seek_pos(j.entries, ts));
}

/// On a handle without matches, a full-record fetch at a timestamp where
/// an entry sits lands exactly on that entry.
pub proof fn lemma_fetch_full_found(j: JournalV, ts: u64, i: int)
    requires
        j.wf(),
        j.match_set.len() == 0,
        0 <= i < j.entries.len(),
        j.entries[i].realtime == ts,
    ensures
        spec_prev_match(j.entries, j.match_set, spec_seek_pos(j.entries, ts)) == Some(i),
{
    crate::journal::lemma_seek_pos_bounds(j.entries, ts);
    let sp = spec_seek_pos(j.entries, ts);
    assert(i < sp);
    assert forall|k: int| i < k < j.entries.len() implies (#[trigger] j.entries[k]).realtime
        > ts by {
        assert(j.entries[i].realtime < j.entries[k].realtime);
    }
    if sp > i + 1 {
        assert(j.entries[sp - 1].realtime <= ts);
        assert(false);
    }
    assert(sp == i + 1);
    lemma_empty_matches(j.entries[i]);
    assert(j.match_set =~= Seq::<MatchV>::empty());
}

} // verus!
