//! Laws of sample gating, observation by observation.

use crate::gate;
use crate::gate::{Gate, Gated, Observation};
use vstd::prelude::*;

verus! {

/// What an observation does: a clear condition is forgotten and does not count; an active one is
/// counted once more, as far as a counter reaches, and is told as below the threshold, as newly on
/// it, or as still above it. No other condition is touched.
pub proof fn an_observation_counts_its_own_condition(
    gate: &mut Gate,
    key: &str,
    active: bool,
    required: u32,
    gated: Gated,
    other: Seq<char>,
)
    requires
        call_ensures(Gate::observe, (gate, key, active, required), gated),
    ensures
        ({
            let before = old(gate)@;
            let after = final(gate)@;
            let seen: int = if before.contains_key(key@) {
                before[key@] as int
            } else {
                0
            };
            let count: int = if seen < 4294967295 {
                seen + 1
            } else {
                4294967295
            };
            &&& !active ==> gated == Gated::No && !after.contains_key(key@)
            &&& active ==> after.contains_key(key@) && after[key@] == count
            &&& active ==> (gated == Gated::No <==> count < required)
            &&& active ==> (gated == Gated::Newly <==> count == required)
            &&& active ==> (gated == Gated::Still <==> count > required)
            &&& other != key@ ==> after.contains_key(other) == before.contains_key(other)
            &&& other != key@ && before.contains_key(other) ==> after[other] == before[other]
        }),
{
}

/// A new gate has counted nothing, and a condition counts unless it is told not to.
pub proof fn a_new_gate_has_counted_nothing(new: Gate, gated: Gated, yes: bool)
    requires
        call_ensures(Gate::default, (), new),
        call_ensures(Gated::active, (gated,), yes),
    ensures
        forall|key: Seq<char>| !(#[trigger] new@.contains_key(key)),
        yes <==> gated == Gated::Newly || gated == Gated::Still,
{
}

/// Of the largest threshold there is, a condition counts from that many observations in a row on.
/// Counters go no farther, so it is told as new from there on.
pub proof fn the_largest_threshold_is_met_by_its_streak(
    seen: Seq<Observation>,
    key: Seq<char>,
    active: bool,
)
    ensures
        gate::answer(gate::after(seen), key, active, u32::MAX) == if active && gate::streak(
            seen.push(Observation { key, active }),
            key,
        ) >= u32::MAX {
            Gated::Newly
        } else {
            Gated::No
        },
{
    assert(seen.push(Observation { key, active }).drop_last() == seen);
    gate::gate_counts_streaks(seen, key);
}

} // verus!
