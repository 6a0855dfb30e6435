//! A plain-data model of the log store.
//!
//! The engine only ever reads the store through a small capability surface
//! (seek, move-to-previous, read-field, match management). Everything the
//! engine can observe through that surface is modelled here as plain
//! values: an entry is its receipt timestamp plus its stored field/value
//! pairs, and the store is a list of entries in ascending receipt order.

use vstd::prelude::*;

use crate::journal_fields;
use crate::text::{dec_val, is_dec_string};

verus! {

/// Open options for the store: independent boolean capabilities combined
/// before opening.
#[derive(Debug, Clone, Copy, PartialEq, Eq, Structural)]
pub struct OpenFlags {
    /// Only files generated on the local machine
    pub local_only: bool,
    /// Only volatile journal files excluding persisted
    pub runtime_only: bool,
    /// System services and the Kernel
    pub system: bool,
    /// Current user
    pub current_user: bool,
}

/// The native bit encoding of a flag set.
pub open spec fn spec_flag_bits(f: OpenFlags) -> int {
    (if f.local_only {
        1int
    } else {
        0int
    }) + (if f.runtime_only {
        2int
    } else {
        0int
    }) + (if f.system {
        4int
    } else {
        0int
    }) + (if f.current_user {
        8int
    } else {
        0int
    })
}

impl OpenFlags {
    /// Every capability switched off.
    pub fn none() -> (r: OpenFlags)
        ensures
            r == (OpenFlags {
                local_only: false,
                runtime_only: false,
                system: false,
                current_user: false,
            }),
    {
        OpenFlags { local_only: false, runtime_only: false, system: false, current_user: false }
    }

    /// The combination a local interactive reader wants: local files,
    /// system scope and the current user's scope.
    pub fn local_system_user() -> (r: OpenFlags)
        ensures
            r == (OpenFlags {
                local_only: true,
                runtime_only: false,
                system: true,
                current_user: true,
            }),
    {
        OpenFlags { local_only: true, runtime_only: false, system: true, current_user: true }
    }

    /// The value handed to the native open call.
    pub fn bits(&self) -> (r: u32)
        ensures
            r == spec_flag_bits(*self),
    {
        let mut r: u32 = 0;
        if self.local_only {
            r = r + 1;
        }
        if self.runtime_only {
            r = r + 2;
        }
        if self.system {
            r = r + 4;
        }
        if self.current_user {
            r = r + 8;
        }
        r
    }
}

/// One stored log entry: its receipt timestamp (microseconds since the
/// epoch, as the store's dedicated accessor reports it) and its stored
/// field/value pairs. A pair with an empty name stands for a field the
/// store reports as oversized or unsupported.
#[derive(Debug)]
pub struct StoreEntry {
    pub realtime: u64,
    pub fields: Vec<(String, String)>,
}

/// The mathematical content of a [`StoreEntry`].
pub ghost struct StoreEntryV {
    pub realtime: u64,
    pub fields: Seq<(Seq<char>, Seq<char>)>,
}

impl View for StoreEntry {
    type V = StoreEntryV;

    open spec fn view(&self) -> StoreEntryV {
        StoreEntryV { realtime: self.realtime, fields: self.fields.deep_view() }
    }
}

impl DeepView for StoreEntry {
    type V = StoreEntryV;

    open spec fn deep_view(&self) -> StoreEntryV {
        self.view()
    }
}

impl StoreEntryV {
    /// The entry stores a field of this name.
    pub open spec fn has_field(self, name: Seq<char>) -> bool {
        exists|i: int| 0 <= i < self.fields.len() && (#[trigger] self.fields[i]).0 == name
    }

    /// The entry stores exactly this field/value pair.
    pub open spec fn has_pair(self, name: Seq<char>, value: Seq<char>) -> bool {
        exists|i: int|
            0 <= i < self.fields.len() && (#[trigger] self.fields[i]).0 == name
                && self.fields[i].1 == value
    }

    /// The value stored under `name` (meaningful only when `has_field`
    /// holds and names are unique).
    pub open spec fn value_of(self, name: Seq<char>) -> Seq<char> {
        let i = choose|i: int| 0 <= i < self.fields.len() && (#[trigger] self.fields[i]).0 == name;
        self.fields[i].1
    }

    /// Well-formed entry: field names occur at most once, and a stored
    /// source timestamp is a decimal string that fits in 64 bits (the
    /// traversal reads it without further checks).
    pub open spec fn wf(self) -> bool {
        &&& (forall|i: int, j: int|
            0 <= i < self.fields.len() && 0 <= j < self.fields.len() && i != j ==> (
            #[trigger] self.fields[i]).0 != (#[trigger] self.fields[j]).0)
        &&& (self.has_field(journal_fields::SOURCE_REALTIME_TIMESTAMP@) ==> {
            let v = self.value_of(journal_fields::SOURCE_REALTIME_TIMESTAMP@);
            is_dec_string(v) && dec_val(v) <= u64::MAX
        })
    }
}

/// Entries stand in ascending receipt order, each one well formed.
pub open spec fn store_wf(entries: Seq<StoreEntryV>) -> bool {
    &&& (forall|i: int, j: int|
        0 <= i < j < entries.len() ==> (#[trigger] entries[i]).realtime < (
        #[trigger] entries[j]).realtime)
    &&& (forall|i: int| 0 <= i < entries.len() ==> (#[trigger] entries[i]).wf())
}

/// One compiled match predicate: a field name and the exact value it must
/// have.
pub type MatchV = (Seq<char>, Seq<char>);

/// Some predicate on field `f` in the match set is satisfied by the entry.
pub open spec fn match_group_satisfied(e: StoreEntryV, ms: Seq<MatchV>, f: Seq<char>) -> bool {
    exists|j: int|
        0 <= j < ms.len() && (#[trigger] ms[j]).0 == f && e.has_pair(ms[j].0, ms[j].1)
}

/// The store's grouping rule for a list of match predicates: predicates on
/// the same field OR together, predicates on different fields AND together.
/// An entry passes when every predicate's field group contains at least one
/// pair the entry actually stores.
pub open spec fn entry_matches(e: StoreEntryV, ms: Seq<MatchV>) -> bool {
    forall|i: int|
        0 <= i < ms.len() ==> match_group_satisfied(e, ms, (#[trigger] ms[i]).0)
}

/// An entry with no predicates applied always matches.
pub proof fn lemma_empty_matches(e: StoreEntryV)
    ensures
        entry_matches(e, Seq::empty()),
{
}

/// Position of the first `=` in a match expression (the length when there
/// is none).
pub open spec fn eq_pos(s: Seq<char>) -> int
    decreases s.len(),
{
    if s.len() == 0 {
        0
    } else if s[0] == '=' {
        0
    } else {
        1 + eq_pos(s.drop_first())
    }
}

/// The first `=` is where `eq_pos` says, and nothing before it is `=`.
pub proof fn lemma_eq_pos(s: Seq<char>)
    ensures
        0 <= eq_pos(s) <= s.len(),
        eq_pos(s) < s.len() ==> s[eq_pos(s)] == '=',
        forall|k: int| 0 <= k < eq_pos(s) ==> s[k] != '=',
    decreases s.len(),
{
    if s.len() > 0 && s[0] != '=' {
        let rest = s.drop_first();
        lemma_eq_pos(rest);
        assert forall|k: int| 0 <= k < eq_pos(s) implies s[k] != '=' by {
            if k > 0 {
                assert(rest[k - 1] == s[k]);
            }
        }
    }
}

/// A well-formed match expression: a non-empty field name, then `=`, then
/// the value.
pub open spec fn match_valid(s: Seq<char>) -> bool {
    0 < eq_pos(s) < s.len()
}

/// The field part of a match expression.
pub open spec fn match_field(s: Seq<char>) -> Seq<char> {
    s.subrange(0, eq_pos(s))
}

/// The value part of a match expression.
pub open spec fn match_value(s: Seq<char>) -> Seq<char> {
    s.subrange(eq_pos(s) + 1, s.len() as int)
}

} // verus!
