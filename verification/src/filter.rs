//! The filter compiler: turns a [`Query`] into the ordered list of native
//! `FIELD=value` match expressions that reproduces the query's meaning
//! under the store's AND-of-ORs grouping.

use vstd::prelude::*;

use crate::journal_fields;
use crate::query::{Query, QueryV};
use crate::store::{eq_pos, lemma_eq_pos, match_field, match_valid, match_value, MatchV};
use crate::text::dec_of;

verus! {

/// No `=` occurs in `s`.
pub open spec fn no_eq(s: Seq<char>) -> bool {
    forall|k: int| 0 <= k < s.len() ==> s[k] != '='
}

/// The first `=` of `field ++ "=" ++ value` is exactly after the field.
proof fn lemma_eq_pos_concat(field: Seq<char>, value: Seq<char>)
    requires
        no_eq(field),
    ensures
        eq_pos(field + seq!['='] + value) == field.len(),
    decreases field.len(),
{
    let e = field + seq!['='] + value;
    if field.len() == 0 {
        assert(e[0] == '=');
    } else {
        assert(e[0] == field[0]);
        let fr = field.drop_first();
        assert(no_eq(fr)) by {
            assert(forall|k: int| 0 <= k < fr.len() ==> fr[k] == field[k + 1]);
        }
        lemma_eq_pos_concat(fr, value);
        assert(e.drop_first() =~= fr + seq!['='] + value);
    }
}

/// A `FIELD=value` expression built from an `=`-free, non-empty field name
/// is valid and splits back into exactly that field and value.
pub proof fn lemma_match_expr(field: Seq<char>, value: Seq<char>)
    requires
        field.len() > 0,
        no_eq(field),
    ensures
        match_valid(field + seq!['='] + value),
        match_field(field + seq!['='] + value) == field,
        match_value(field + seq!['='] + value) == value,
{
    let e = field + seq!['='] + value;
    lemma_eq_pos_concat(field, value);
    assert(match_field(e) =~= field);
    assert(match_value(e) =~= value);
}

/// The field names the compiler emits contain no `=`.
pub proof fn lemma_filter_fields_no_eq()
    ensures
        no_eq(journal_fields::PID@),
        no_eq(journal_fields::PRIORITY@),
        no_eq(journal_fields::UNIT_FILTER@),
        no_eq(journal_fields::SYSTEMD_SLICE@),
        no_eq(journal_fields::BOOT_ID@),
        no_eq(journal_fields::TRANSPORT@),
        journal_fields::PID@.len() > 0,
        journal_fields::PRIORITY@.len() > 0,
        journal_fields::UNIT_FILTER@.len() > 0,
        journal_fields::SYSTEMD_SLICE@.len() > 0,
        journal_fields::BOOT_ID@.len() > 0,
        journal_fields::TRANSPORT@.len() > 0,
{
    reveal_strlit("_PID");
    reveal_strlit("PRIORITY");
    reveal_strlit("UNIT");
    reveal_strlit("_SYSTEMD_SLICE");
    reveal_strlit("_BOOT_ID");
    reveal_strlit("_TRANSPORT");
}

/// The match predicates a query's pid constraint compiles to.
pub open spec fn spec_pid_matches(q: QueryV) -> Seq<MatchV> {
    if q.pid > 0 {
        seq![(journal_fields::PID@, dec_of(q.pid as nat))]
    } else {
        Seq::empty()
    }
}

/// Severity is an exact-match field in the store, so a minimum severity
/// expands into the inclusive OR set {0..minimum}.
pub open spec fn spec_priority_matches(q: QueryV) -> Seq<MatchV> {
    Seq::new((q.minimum_priority + 1) as nat, |i: int| (journal_fields::PRIORITY@, dec_of(i as nat)))
}

/// One predicate per selected unit; consecutive predicates on the same
/// field OR together.
pub open spec fn spec_unit_matches(q: QueryV) -> Seq<MatchV> {
    q.units.map_values(|u: Seq<char>| (journal_fields::UNIT_FILTER@, u))
}

/// The slice constraint, when one is set.
pub open spec fn spec_slice_matches(q: QueryV) -> Seq<MatchV> {
    if q.slice.len() > 0 {
        seq![(journal_fields::SYSTEMD_SLICE@, q.slice)]
    } else {
        Seq::empty()
    }
}

/// One predicate per selected boot session.
pub open spec fn spec_boot_matches(q: QueryV) -> Seq<MatchV> {
    q.boot_ids.map_values(|b: Seq<char>| (journal_fields::BOOT_ID@, b))
}

/// One predicate per allowed transport.
pub open spec fn spec_transport_matches(q: QueryV) -> Seq<MatchV> {
    q.transports.map_values(|t: Seq<char>| (journal_fields::TRANSPORT@, t))
}

/// The whole compiled match list, in the order the engine applies it:
/// pid, severities, units, slice, boots, transports. Values within one
/// dimension OR together; the dimensions AND together, because the engine
/// never issues an OR-separator across dimensions.
pub open spec fn spec_compiled_matches(q: QueryV) -> Seq<MatchV> {
    spec_pid_matches(q) + spec_priority_matches(q) + spec_unit_matches(q) + spec_slice_matches(q)
        + spec_boot_matches(q) + spec_transport_matches(q)
}

/// The predicates a list of match expressions denotes, split at their
/// first `=`.
pub open spec fn spec_parsed(exprs: Seq<Seq<char>>) -> Seq<MatchV> {
    exprs.map_values(|e: Seq<char>| (match_field(e), match_value(e)))
}

/// Appends one compiled `FIELD=value` expression, keeping every expression
/// in the list well formed.
fn push_expr(exprs: &mut Vec<String>, field: &'static str, value: &str)
    requires
        field@.len() > 0,
        no_eq(field@),
        forall|k: int|
            0 <= k < old(exprs).deep_view().len() ==> match_valid(
                #[trigger] old(exprs).deep_view()[k],
            ),
    ensures
        spec_parsed(final(exprs).deep_view()) == spec_parsed(old(exprs).deep_view()).push(
            (field@, value@),
        ),
        forall|k: int|
            0 <= k < final(exprs).deep_view().len() ==> match_valid(
                #[trigger] final(exprs).deep_view()[k],
            ),
{
    let ghost olddv = exprs.deep_view();
    let e = make_match_expr(field, value);
    proof {
        lemma_match_expr(field@, value@);
    }
    exprs.push(e);
    proof {
        assert(exprs.deep_view() =~= olddv.push(field@ + seq!['='] + value@));
        assert(spec_parsed(exprs.deep_view()) =~= spec_parsed(olddv).push((field@, value@)));
        assert forall|k: int| 0 <= k < exprs.deep_view().len() implies match_valid(
            #[trigger] exprs.deep_view()[k],
        ) by {
            if k < olddv.len() {
                assert(exprs.deep_view()[k] == olddv[k]);
            }
        }
    }
}

/// Compiles a query into the ordered list of native match expressions the
/// engine applies: pid, then the severity OR set, then units, slice, boot
/// sessions and transports. Every emitted expression is well formed and
/// parses back to exactly the compiled predicate list, so issuing them in
/// order reproduces the required AND-of-ORs grouping.
pub fn compile_match_exprs(q: &Query) -> (r: Vec<String>)
    requires
        q@.wf(),
    ensures
        spec_parsed(r.deep_view()) == spec_compiled_matches(q@),
        forall|k: int| 0 <= k < r.deep_view().len() ==> match_valid(#[trigger] r.deep_view()[k]),
{
    proof {
        lemma_filter_fields_no_eq();
    }
    let mut exprs: Vec<String> = Vec::new();

    if q.pid > 0 {
        let value = crate::text::u64_to_string(q.pid as u64);
        push_expr(&mut exprs, journal_fields::PID, value.as_str());
    }
    proof {
        assert(spec_parsed(exprs.deep_view()) =~= spec_pid_matches(q@));
    }

    let ghost head = spec_pid_matches(q@);
    let mut p: u32 = 0;
    while p <= q.minimum_priority
        invariant
            q@.wf(),
            0 <= p <= q@.minimum_priority + 1,
            spec_parsed(exprs.deep_view()) == head + Seq::new(
                p as nat,
                |i: int| (journal_fields::PRIORITY@, dec_of(i as nat)),
            ),
            forall|k: int|
                0 <= k < exprs.deep_view().len() ==> match_valid(#[trigger] exprs.deep_view()[k]),
        decreases q@.minimum_priority + 1 - p,
    {
        let value = crate::text::u64_to_string(p as u64);
        proof {
            lemma_filter_fields_no_eq();
        }
        push_expr(&mut exprs, journal_fields::PRIORITY, value.as_str());
        p = p + 1;
        proof {
            assert(spec_parsed(exprs.deep_view()) =~= head + Seq::new(
                p as nat,
                |i: int| (journal_fields::PRIORITY@, dec_of(i as nat)),
            ));
        }
    }
    proof {
        assert(spec_parsed(exprs.deep_view()) =~= spec_pid_matches(q@) + spec_priority_matches(
            q@,
        ));
    }

    let ghost head2 = spec_pid_matches(q@) + spec_priority_matches(q@);
    let n = q.units.len();
    let mut i: usize = 0;
    while i < n
        invariant
            n == q.units.len(),
            0 <= i <= n,
            spec_parsed(exprs.deep_view()) == head2 + q@.units.subrange(0, i as int).map_values(
                |u: Seq<char>| (journal_fields::UNIT_FILTER@, u),
            ),
            forall|k: int|
                0 <= k < exprs.deep_view().len() ==> match_valid(#[trigger] exprs.deep_view()[k]),
        decreases n - i,
    {
        proof {
            lemma_filter_fields_no_eq();
            assert(q.units@[i as int]@ == q@.units[i as int]);
        }
        push_expr(&mut exprs, journal_fields::UNIT_FILTER, q.units[i].as_str());
        i = i + 1;
        proof {
            assert(spec_parsed(exprs.deep_view()) =~= head2 + q@.units.subrange(
                0,
                i as int,
            ).map_values(|u: Seq<char>| (journal_fields::UNIT_FILTER@, u)));
        }
    }
    proof {
        assert(q@.units.subrange(0, n as int) =~= q@.units);
        assert(spec_parsed(exprs.deep_view()) =~= head2 + spec_unit_matches(q@));
    }

    let ghost head3 = head2 + spec_unit_matches(q@);
    if !q.slice.as_str().is_empty() {
        push_expr(&mut exprs, journal_fields::SYSTEMD_SLICE, q.slice.as_str());
    }
    proof {
        assert(spec_parsed(exprs.deep_view()) =~= head3 + spec_slice_matches(q@));
    }

    let ghost head4 = head3 + spec_slice_matches(q@);
    let nb = q.boot_ids.len();
    let mut bi: usize = 0;
    while bi < nb
        invariant
            nb == q.boot_ids.len(),
            0 <= bi <= nb,
            spec_parsed(exprs.deep_view()) == head4 + q@.boot_ids.subrange(0, bi as int).map_values(
                |b: Seq<char>| (journal_fields::BOOT_ID@, b),
            ),
            forall|k: int|
                0 <= k < exprs.deep_view().len() ==> match_valid(#[trigger] exprs.deep_view()[k]),
        decreases nb - bi,
    {
        proof {
            lemma_filter_fields_no_eq();
            assert(q.boot_ids@[bi as int]@ == q@.boot_ids[bi as int]);
        }
        push_expr(&mut exprs, journal_fields::BOOT_ID, q.boot_ids[bi].as_str());
        bi = bi + 1;
        proof {
            assert(spec_parsed(exprs.deep_view()) =~= head4 + q@.boot_ids.subrange(
                0,
                bi as int,
            ).map_values(|b: Seq<char>| (journal_fields::BOOT_ID@, b)));
        }
    }
    proof {
        assert(q@.boot_ids.subrange(0, nb as int) =~= q@.boot_ids);
        assert(spec_parsed(exprs.deep_view()) =~= head4 + spec_boot_matches(q@));
    }

    let ghost head5 = head4 + spec_boot_matches(q@);
    let nt = q.transports.len();
    let mut ti: usize = 0;
    while ti < nt
        invariant
            nt == q.transports.len(),
            0 <= ti <= nt,
            spec_parsed(exprs.deep_view()) == head5 + q@.transports.subrange(
                0,
                ti as int,
            ).map_values(|t: Seq<char>| (journal_fields::TRANSPORT@, t)),
            forall|k: int|
                0 <= k < exprs.deep_view().len() ==> match_valid(#[trigger] exprs.deep_view()[k]),
        decreases nt - ti,
    {
        proof {
            lemma_filter_fields_no_eq();
            assert(q.transports@[ti as int]@ == q@.transports[ti as int]);
        }
        push_expr(&mut exprs, journal_fields::TRANSPORT, q.transports[ti].as_str());
        ti = ti + 1;
        proof {
            assert(spec_parsed(exprs.deep_view()) =~= head5 + q@.transports.subrange(
                0,
                ti as int,
            ).map_values(|t: Seq<char>| (journal_fields::TRANSPORT@, t)));
        }
    }
    proof {
        assert(q@.transports.subrange(0, nt as int) =~= q@.transports);
        assert(spec_parsed(exprs.deep_view()) =~= spec_compiled_matches(q@));
    }

    exprs
}

/// Builds one native `FIELD=value` match expression.
pub fn make_match_expr(field: &str, value: &str) -> (r: String)
    ensures
        r@ == field@ + seq!['='] + value@,
{
    let mut s = String::from_str(field);
    s.append("=");
    s.append(value);
    proof {
        reveal_strlit("=");
        assert("="@ =~= seq!['=']);
        assert(s@ =~= field@ + seq!['='] + value@);
    }
    s
}

} // verus!
