//! Sample gating: when a condition that is seen comes to count.

use vstd::hash_map::StringHashMap;
use vstd::prelude::*;

verus! {

/// Require a condition to hold for N consecutive evaluations before it counts.
/// A single sample straddling a garbage-collection pause is not an emergency.
pub struct Gate {
    counters: StringHashMap<u32>,
}

/// What a gate makes of an observation.
#[derive(Debug, Clone, Copy, PartialEq, Eq, Structural)]
pub enum Gated {
    /// Below the sample threshold, or the condition is clear.
    No,
    /// Crossed the threshold on this evaluation.
    Newly,
    /// Already reported on an earlier evaluation.
    Still,
}

impl Gated {
    /// Tells whether the condition counts.
    pub fn active(self) -> (yes: bool)
        ensures
            yes == (self != Gated::No),
    {
        match self {
            Gated::No => false,
            _ => true,
        }
    }
}

impl View for Gate {
    type V = Map<Seq<char>, u32>;

    closed spec fn view(&self) -> Map<Seq<char>, u32> {
        self.counters@
    }
}

/// One more than `n`, or the largest number there is.
pub open spec fn one_more(n: u32) -> u32 {
    if n < u32::MAX {
        (n + 1) as u32
    } else {
        n
    }
}

/// The count for `key` after one more observation that is active.
pub open spec fn count(counters: Map<Seq<char>, u32>, key: Seq<char>) -> u32 {
    one_more(
        if counters.contains_key(key) {
            counters[key]
        } else {
            0
        },
    )
}

/// The counters after an observation: an active one is counted, a clear one starts anew.
pub open spec fn observed(
    counters: Map<Seq<char>, u32>,
    key: Seq<char>,
    active: bool,
) -> Map<Seq<char>, u32> {
    if active {
        counters.insert(key, count(counters, key))
    } else {
        counters.remove(key)
    }
}

/// What is made of an observation.
pub open spec fn answer(
    counters: Map<Seq<char>, u32>,
    key: Seq<char>,
    active: bool,
    required: u32,
) -> Gated {
    if !active || count(counters, key) < required {
        Gated::No
    } else if count(counters, key) == required {
        Gated::Newly
    } else {
        Gated::Still
    }
}

impl Default for Gate {
    fn default() -> (gate: Self)
        ensures
            gate@ == Map::<Seq<char>, u32>::empty(),
    {
        Gate { counters: StringHashMap::new() }
    }
}

impl Gate {
    /// Takes note of whether the condition `key` is active, and tells whether it counts when
    /// `required` observations in a row are asked for.
    pub fn observe(&mut self, key: &str, active: bool, required: u32) -> (gated: Gated)
        ensures
            gated == answer(old(self)@, key@, active, required),
            final(self)@ == observed(old(self)@, key@, active),
    {
        if !active {
            self.counters.remove(key);
            return Gated::No;
        }
        let seen: u32 = match self.counters.get(key) {
            Some(n) => *n,
            None => 0,
        };
        let now = seen.saturating_add(1);
        self.counters.insert(key.to_owned(), now);
        if now < required {
            Gated::No
        } else if now == required {
            Gated::Newly
        } else {
            Gated::Still
        }
    }
}

/// An observation of the condition `key`.
pub struct Observation {
    pub key: Seq<char>,
    pub active: bool,
}

/// The counters of a gate that was new before these observations.
pub open spec fn after(seen: Seq<Observation>) -> Map<Seq<char>, u32>
    decreases seen.len(),
{
    if seen.len() == 0 {
        Map::empty()
    } else {
        observed(after(seen.drop_last()), seen.last().key, seen.last().active)
    }
}

/// For how many observations in a row, up to the last, the condition `key` has been active.
/// Observations of other conditions do not matter.
pub open spec fn streak(seen: Seq<Observation>, key: Seq<char>) -> nat
    decreases seen.len(),
{
    if seen.len() == 0 {
        0
    } else if seen.last().key != key {
        streak(seen.drop_last(), key)
    } else if seen.last().active {
        streak(seen.drop_last(), key) + 1
    } else {
        0
    }
}

/// A gate counts streaks, each condition by itself and as far as its counters reach.
pub proof fn gate_counts_streaks(seen: Seq<Observation>, key: Seq<char>)
    ensures
        after(seen).contains_key(key) <==> streak(seen, key) > 0,
        streak(seen, key) > 0 ==> after(seen)[key] == if streak(seen, key) <= u32::MAX {
            streak(seen, key) as u32
        } else {
            u32::MAX
        },
    decreases seen.len(),
{
    if seen.len() != 0 {
        gate_counts_streaks(seen.drop_last(), key);
    }
}

/// A condition counts from the `required`th observation of a streak on. It is reported as new
/// on that one only, so that a persisting condition is not reported again, and a condition that
/// cleared and came back is.
///
/// The largest threshold is left out: counters stop there, and cannot tell it from what follows.
pub proof fn gate_reports_once_per_streak(
    seen: Seq<Observation>,
    key: Seq<char>,
    active: bool,
    required: u32,
)
    requires
        required < u32::MAX,
    ensures
        ({
            let length = streak(seen.push(Observation { key, active }), key);
            answer(after(seen), key, active, required) == if !active || length < required {
                Gated::No
            } else if length == required {
                Gated::Newly
            } else {
                Gated::Still
            }
        }),
{
    assert(seen.push(Observation { key, active }).drop_last() == seen);
    gate_counts_streaks(seen, key);
}

} // verus!
