//! Installed services, as the auxiliary service listing reports them.

use vstd::prelude::*;

verus! {

/// One installed service: its unit file name, its enable state, and the
/// vendor preset when one is known.
#[derive(Debug, Clone)]
pub struct Unit {
    pub unit_file: String,
    pub state: String,
    pub preset: Option<String>,
}

/// The caller-visible name of the synthetic init pseudo-entry. The init
/// process is not represented by a real unit file in the store, so
/// selecting this entry translates into a `pid = 1` filter instead of a
/// unit-name filter.
pub const INIT_UNIT: &'static str = "Init (Systemd)";

/// Prefixes a service listing with exactly one synthetic init pseudo-entry
/// at position 0; the real units follow unchanged, in order.
pub fn services_with_init(units: Vec<Unit>) -> (r: Vec<Unit>)
    ensures
        r@.len() == units@.len() + 1,
        r@[0].unit_file@ == INIT_UNIT@,
        r@[0].state@ == Seq::<char>::empty(),
        r@[0].preset is None,
        forall|i: int| 1 <= i < r@.len() ==> #[trigger] r@[i] == units@[i - 1],
{
    let mut r = units;
    let init = Unit { unit_file: String::from_str(INIT_UNIT), state: String::new(), preset: None };
    r.insert(0, init);
    r
}

/// Translates a service selection for the query: when the synthetic init
/// pseudo-entry stands first it is removed from the unit-name list and the
/// caller is told to set a `pid = 1` filter instead.
pub fn resolve_init_selection(services: &mut Vec<String>) -> (init: bool)
    ensures
        init == (old(services)@.len() > 0 && old(services)@[0]@ == INIT_UNIT@),
        init ==> final(services)@ == old(services)@.subrange(1, old(services)@.len() as int),
        !init ==> *final(services) == *old(services),
{
    if services.len() > 0 && crate::text::str_eq(services[0].as_str(), INIT_UNIT) {
        services.remove(0);
        proof {
            assert(services@ =~= old(services)@.subrange(1, old(services)@.len() as int));
        }
        true
    } else {
        false
    }
}

} // verus!
