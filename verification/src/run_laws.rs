//! Laws of the daemon's loop: what holds of its runs one after another.

use crate::actions;
use crate::actions::{ActionPolicy, Decision, Memory, Request};
use crate::config::Config;
use crate::gate;
use crate::gate::Gated;
use crate::guardian;
use crate::guardian::{Evaluation, Mode, StepText};
use crate::guardian_laws;
use crate::metrics;
use crate::pressure;
use vstd::prelude::*;

verus! {

/// One turn of the loop: what was evaluated, at which time of day, and when on the clock that
/// does not jump.
pub struct Turn {
    pub ev: Evaluation,
    pub now: u64,
    pub mono: u64,
}

/// What the turns evaluated.
pub open spec fn evaluations(turns: Seq<Turn>) -> Seq<Evaluation> {
    turns.map_values(|t: Turn| t.ev)
}

/// What one more turn is to do, after these, and what the budget remembers then.
pub open spec fn turn_plan(cfg: Config, earlier: Seq<Turn>, turn: Turn, memory: Memory) -> (
    Seq<StepText>,
    Memory,
) {
    guardian::run_plan(
        cfg,
        guardian_laws::counters_after(cfg, evaluations(earlier)),
        memory,
        turn.ev,
        turn.now,
        turn.mono,
        Mode::Live,
    )
}

/// What a budget remembers that was new before these turns.
pub open spec fn memory_after(cfg: Config, turns: Seq<Turn>) -> Memory
    decreases turns.len(),
{
    if turns.len() == 0 {
        actions::nothing_remembered()
    } else {
        let earlier = turns.drop_last();
        turn_plan(cfg, earlier, turns.last(), memory_after(cfg, earlier)).1
    }
}

/// The units that steps stop, in order, each with the time `mono`.
pub open spec fn stops_of(steps: Seq<StepText>, mono: u64) -> Seq<(Seq<char>, u64)>
    decreases steps.len(),
{
    if steps.len() == 0 {
        Seq::empty()
    } else {
        match steps.last() {
            StepText::Stop(unit) => stops_of(steps.drop_last(), mono).push((unit, mono)),
            StepText::Record(..) => stops_of(steps.drop_last(), mono),
        }
    }
}

/// The units that the turns stop, in order, each with its time.
pub open spec fn stopped(cfg: Config, turns: Seq<Turn>) -> Seq<(Seq<char>, u64)>
    decreases turns.len(),
{
    if turns.len() == 0 {
        Seq::empty()
    } else {
        let earlier = turns.drop_last();
        stopped(cfg, earlier) + stops_of(
            turn_plan(cfg, earlier, turns.last(), memory_after(cfg, earlier)).0,
            turns.last().mono,
        )
    }
}

/// When the turns stop units.
pub open spec fn stop_times(cfg: Config, turns: Seq<Turn>) -> Seq<u64> {
    stopped(cfg, turns).map_values(|s: (Seq<char>, u64)| s.1)
}

/// Whether the turns follow a clock that never goes back.
pub open spec fn in_turn(turns: Seq<Turn>) -> bool {
    forall|i: int, j: int|
        0 <= i <= j < turns.len() ==> (#[trigger] turns[i]).mono <= (#[trigger] turns[j]).mono
}

/// The requests that the turns make of the budget, in order.
spec fn requests_of(cfg: Config, turns: Seq<Turn>) -> Seq<Request>
    decreases turns.len(),
{
    if turns.len() == 0 {
        Seq::empty()
    } else {
        let earlier = turns.drop_last();
        let turn = turns.last();
        let counters = guardian_laws::counters_after(cfg, evaluations(earlier));
        if guardian::gated_emergency(cfg, counters, turn.ev) == Gated::No {
            requests_of(cfg, earlier)
        } else {
            requests_of(cfg, earlier) + guardian_laws::unit_requests(
                metrics::activity(turn.ev.unit_active@),
                turn.mono,
                cfg.observe_only,
            )
        }
    }
}

/// Which units requests shed, in order, each with its time.
spec fn sheds(policy: ActionPolicy, requests: Seq<Request>) -> Seq<(Seq<char>, u64)>
    decreases requests.len(),
{
    if requests.len() == 0 {
        Seq::empty()
    } else {
        let before = sheds(policy, requests.drop_last());
        let r = requests.last();
        if actions::decision(
            actions::after(policy, requests.drop_last()),
            r.unit,
            r.now,
            policy,
            r.observe_only,
        ) == Decision::Shed {
            before.push((r.unit, r.now))
        } else {
            before
        }
    }
}

/// The times of what is shed.
proof fn lemma_shed_times(policy: ActionPolicy, requests: Seq<Request>)
    ensures
        sheds(policy, requests).map_values(|s: (Seq<char>, u64)| s.1) == actions::shed_times(
            policy,
            requests,
        ),
    decreases requests.len(),
{
    if requests.len() != 0 {
        lemma_shed_times(policy, requests.drop_last());
    }
    assert(sheds(policy, requests).map_values(|s: (Seq<char>, u64)| s.1) == actions::shed_times(
        policy,
        requests,
    ));
}

/// What steps stop, one after another, they stop together.
proof fn lemma_stops_concat(a: Seq<StepText>, b: Seq<StepText>, mono: u64)
    ensures
        stops_of(a + b, mono) == stops_of(a, mono) + stops_of(b, mono),
    decreases b.len(),
{
    if b.len() == 0 {
        assert(a + b == a);
    } else {
        lemma_stops_concat(a, b.drop_last(), mono);
        assert((a + b).drop_last() == a + b.drop_last());
    }
}

/// Records stop nothing.
proof fn lemma_records_stop_nothing(steps: Seq<StepText>, mono: u64)
    requires
        forall|k: int| 0 <= k < steps.len() ==> (#[trigger] steps[k]) is Record,
    ensures
        stops_of(steps, mono) == Seq::<(Seq<char>, u64)>::empty(),
    decreases steps.len(),
{
    if steps.len() != 0 {
        assert(steps[steps.len() - 1] is Record);
        assert forall|k: int| 0 <= k < steps.drop_last().len() implies (
        #[trigger] steps.drop_last()[k]) is Record by {
            assert(steps.drop_last()[k] == steps[k]);
        }
        lemma_records_stop_nothing(steps.drop_last(), mono);
    }
}

/// What is planned for units is what their requests shed.
proof fn lemma_planned_sheds(
    units: Seq<(Seq<char>, bool)>,
    earlier: Seq<Request>,
    mono: u64,
    cfg: Config,
)
    ensures
        ({
            let all = earlier + guardian_laws::unit_requests(units, mono, cfg.observe_only);
            let (stops, memory) = guardian::shed_plan(
                units,
                actions::after(cfg.actions, earlier),
                mono,
                cfg,
            );
            &&& memory == actions::after(cfg.actions, all)
            &&& sheds(cfg.actions, all) == sheds(cfg.actions, earlier) + stops_of(stops, mono)
        }),
    decreases units.len(),
{
    let all = earlier + guardian_laws::unit_requests(units, mono, cfg.observe_only);
    guardian_laws::stops_are_admitted_requests(units, earlier, mono, cfg);
    if units.len() == 0 {
        assert(all == earlier);
    } else {
        let shorter = units.drop_last();
        let before = earlier + guardian_laws::unit_requests(shorter, mono, cfg.observe_only);
        let start = actions::after(cfg.actions, earlier);
        let fewer = guardian::shed_plan(shorter, start, mono, cfg).0;
        lemma_planned_sheds(shorter, earlier, mono, cfg);
        if units.last().1 {
            assert(all.drop_last() == before);
            assert(all.last() == (Request {
                unit: units.last().0,
                now: mono,
                observe_only: cfg.observe_only,
            }));
            let step = StepText::Stop(units.last().0);
            assert(fewer.push(step).drop_last() == fewer);
        } else {
            assert(all == before);
        }
    }
}

/// What the turns stop is what their requests shed.
proof fn lemma_turns(cfg: Config, turns: Seq<Turn>)
    ensures
        memory_after(cfg, turns) == actions::after(cfg.actions, requests_of(cfg, turns)),
        stopped(cfg, turns) == sheds(cfg.actions, requests_of(cfg, turns)),
    decreases turns.len(),
{
    if turns.len() != 0 {
        let earlier = turns.drop_last();
        let turn = turns.last();
        let counters = guardian_laws::counters_after(cfg, evaluations(earlier));
        let before = requests_of(cfg, earlier);
        let memory = memory_after(cfg, earlier);
        let gated = guardian::gated_emergency(cfg, counters, turn.ev);
        let units = metrics::activity(turn.ev.unit_active@);
        let recorded = guardian::gated_mounts(cfg, counters, turn.ev, turn.now).0;
        let planned = guardian::emergency_plan(cfg, memory, turn.ev, gated, turn.now, turn.mono).0;
        lemma_turns(cfg, earlier);
        guardian_laws::lemma_mounts_are_recorded(
            metrics::findings(turn.ev.mounts@),
            gate::observed(
                counters,
                guardian::emergency_key(),
                pressure::emergency(turn.ev.pressure, cfg.memory),
            ),
            cfg.consecutive_samples,
            turn.now,
        );
        lemma_records_stop_nothing(recorded, turn.mono);
        lemma_stops_concat(recorded, planned, turn.mono);
        let found = stops_of(recorded + planned, turn.mono);
        assert(found == stops_of(planned, turn.mono));
        if gated == Gated::No {
            assert(stopped(cfg, earlier) + found == stopped(cfg, earlier));
        } else {
            let stops = guardian::shed_plan(units, memory, turn.mono, cfg).0;
            let first = if gated == Gated::Newly {
                seq![guardian::onset(cfg, memory, turn.ev, turn.now, turn.mono)]
            } else {
                Seq::empty()
            };
            lemma_records_stop_nothing(first, turn.mono);
            lemma_stops_concat(first, stops, turn.mono);
            assert(found == stops_of(stops, turn.mono));
            lemma_planned_sheds(units, before, turn.mono, cfg);
        }
    }
}

/// The requests of units all come at one time.
proof fn lemma_unit_requests(units: Seq<(Seq<char>, bool)>, mono: u64, observe_only: bool)
    ensures
        forall|k: int|
            0 <= k < guardian_laws::unit_requests(units, mono, observe_only).len() ==> (
            #[trigger] guardian_laws::unit_requests(units, mono, observe_only)[k]).now == mono,
    decreases units.len(),
{
    if units.len() != 0 {
        lemma_unit_requests(units.drop_last(), mono, observe_only);
        let before = guardian_laws::unit_requests(units.drop_last(), mono, observe_only);
        let all = guardian_laws::unit_requests(units, mono, observe_only);
        assert forall|k: int| 0 <= k < all.len() implies (#[trigger] all[k]).now == mono by {
            if k < before.len() {
                assert(all[k] == before[k]);
            }
        }
    }
}

/// Turns that follow a clock make requests that do.
proof fn lemma_requests_in_order(cfg: Config, turns: Seq<Turn>)
    requires
        in_turn(turns),
    ensures
        actions::in_order(requests_of(cfg, turns)),
        turns.len() > 0 ==> forall|k: int|
            0 <= k < requests_of(cfg, turns).len() ==> (#[trigger] requests_of(cfg, turns)[k]).now
                <= turns.last().mono,
    decreases turns.len(),
{
    if turns.len() != 0 {
        let earlier = turns.drop_last();
        let turn = turns.last();
        let before = requests_of(cfg, earlier);
        let all = requests_of(cfg, turns);
        let units = metrics::activity(turn.ev.unit_active@);
        let more = guardian_laws::unit_requests(units, turn.mono, cfg.observe_only);
        assert(in_turn(earlier)) by {
            assert forall|i: int, j: int| 0 <= i <= j < earlier.len() implies (
            #[trigger] earlier[i]).mono <= (#[trigger] earlier[j]).mono by {
                assert(earlier[i] == turns[i] && earlier[j] == turns[j]);
            }
        }
        lemma_requests_in_order(cfg, earlier);
        lemma_unit_requests(units, turn.mono, cfg.observe_only);
        assert forall|k: int| 0 <= k < before.len() implies (#[trigger] before[k]).now
            <= turn.mono by {
            assert(earlier.len() > 0);
            assert(earlier.last() == turns[turns.len() - 2]);
            assert(turns[turns.len() - 2].mono <= turns[turns.len() - 1].mono);
        }
        assert forall|k: int| 0 <= k < all.len() implies (#[trigger] all[k]).now <= turn.mono by {
            if k < before.len() {
                assert(all[k] == before[k]);
            } else {
                assert(all[k] == more[k - before.len()]);
            }
        }
        assert forall|i: int, j: int| 0 <= i <= j < all.len() implies (#[trigger] all[i]).now <= (
        #[trigger] all[j]).now by {
            if j < before.len() {
                assert(all[i] == before[i] && all[j] == before[j]);
            } else {
                assert(all[j] == more[j - before.len()]);
            }
        }
    }
}

/// The daemon keeps its budget: over any number of turns, on a clock that never goes back, no
/// window of `budget_window_sec` seconds sees it stop more than `max_actions_per_window` units.
pub proof fn turns_keep_the_budget(cfg: Config, turns: Seq<Turn>, end: u64)
    requires
        in_turn(turns),
    ensures
        actions::in_window(stop_times(cfg, turns), end as int, cfg.actions.budget_window_sec)
            <= cfg.actions.max_actions_per_window,
{
    lemma_turns(cfg, turns);
    lemma_shed_times(cfg.actions, requests_of(cfg, turns));
    lemma_requests_in_order(cfg, turns);
    actions::budget_holds(cfg.actions, requests_of(cfg, turns), end);
}

/// What is shed is remembered, and shed again only after the cooldown.
proof fn lemma_sheds_apart(policy: ActionPolicy, requests: Seq<Request>)
    requires
        actions::in_order(requests),
    ensures
        ({
            let all = sheds(policy, requests);
            let last = actions::after(policy, requests).last_action;
            &&& forall|k: int|
                0 <= k < all.len() ==> last.contains_key((#[trigger] all[k]).0) && all[k].1
                    <= last[all[k].0] && all[k].1 <= requests.last().now
            &&& forall|i: int, j: int|
                0 <= i < j < all.len() && (#[trigger] all[i]).0 == (#[trigger] all[j]).0
                    ==> all[j].1 - all[i].1 >= policy.cooldown_sec
        }),
    decreases requests.len(),
{
    if requests.len() != 0 {
        let earlier = requests.drop_last();
        let r = requests.last();
        let before = sheds(policy, earlier);
        let all = sheds(policy, requests);
        let memory = actions::after(policy, earlier);
        let last = actions::after(policy, requests).last_action;
        assert(actions::in_order(earlier));
        lemma_sheds_apart(policy, earlier);
        assert forall|k: int| 0 <= k < before.len() implies (#[trigger] before[k]).1 <= r.now by {
            assert(earlier.len() > 0);
            assert(earlier.last() == requests[requests.len() - 2]);
            assert(requests[requests.len() - 2].now <= requests[requests.len() - 1].now);
        }
        assert forall|k: int| 0 <= k < all.len() implies last.contains_key((#[trigger] all[k]).0)
            && all[k].1 <= last[all[k].0] && all[k].1 <= r.now by {
            if k < before.len() {
                assert(all[k] == before[k]);
            }
        }
        assert forall|i: int, j: int|
            0 <= i < j < all.len() && (#[trigger] all[i]).0 == (#[trigger] all[j]).0 implies all[j].1
            - all[i].1 >= policy.cooldown_sec by {
            assert(all[i] == before[i]);
            if j < before.len() {
                assert(all[j] == before[j]);
            } else {
                assert(!actions::cooling_down(memory, r.unit, r.now, policy));
            }
        }
    }
}

/// The daemon keeps its cooldowns: over any number of turns, on a clock that never goes back, it
/// stops one unit twice only `cooldown_sec` seconds apart or more.
pub proof fn turns_keep_the_cooldown(cfg: Config, turns: Seq<Turn>, i: int, j: int)
    requires
        in_turn(turns),
        0 <= i < j < stopped(cfg, turns).len(),
        stopped(cfg, turns)[i].0 == stopped(cfg, turns)[j].0,
    ensures
        stopped(cfg, turns)[j].1 - stopped(cfg, turns)[i].1 >= cfg.actions.cooldown_sec,
{
    lemma_turns(cfg, turns);
    lemma_requests_in_order(cfg, turns);
    lemma_sheds_apart(cfg.actions, requests_of(cfg, turns));
}

} // verus!
