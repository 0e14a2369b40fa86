//! Laws of the guardian: when it acts, on what, and how often it speaks.

use crate::actions;
use crate::actions::{Memory, Request};
use crate::config;
use crate::config::Config;
use crate::gate;
use crate::gate::Gated;
use crate::guardian;
use crate::guardian::{Evaluation, Mode, Readings, StepText};
use crate::incident::FieldText;
use crate::metrics;
use crate::mount_laws;
use crate::mounts;
use crate::mounts::Finding;
use crate::percent;
use crate::pressure;
use crate::pressure::EmergencyThresholds;
use crate::text;
use vstd::prelude::*;

verus! {

/// A dry run touches nothing: it does nothing, and the budget is as before.
pub proof fn dry_run_touches_nothing(
    cfg: Config,
    counters: Map<Seq<char>, u32>,
    memory: Memory,
    ev: Evaluation,
    now: u64,
    mono: u64,
)
    ensures
        guardian::run_plan(cfg, counters, memory, ev, now, mono, Mode::Dry) == (
            Seq::<StepText>::empty(),
            memory,
        ),
{
}

/// Mounts are only ever recorded.
pub(crate) proof fn lemma_mounts_are_recorded(
    found: Seq<(Seq<char>, Finding)>,
    counters: Map<Seq<char>, u32>,
    required: u32,
    now: u64,
)
    ensures
        forall|k: int|
            0 <= k < guardian::mount_plan(found, counters, required, now).0.len() ==> (
            #[trigger] guardian::mount_plan(found, counters, required, now).0[k]) is Record,
    decreases found.len(),
{
    if found.len() != 0 {
        let before = guardian::mount_plan(found.drop_last(), counters, required, now).0;
        lemma_mounts_are_recorded(found.drop_last(), counters, required, now);
        let all = guardian::mount_plan(found, counters, required, now).0;
        assert forall|k: int| 0 <= k < all.len() implies (#[trigger] all[k]) is Record by {
            if k < before.len() {
                assert(all[k] == before[k]);
            }
        }
    }
}

/// What is planned for units is to stop active ones among them, and only on a live path.
pub(crate) proof fn lemma_planned_stops(
    units: Seq<(Seq<char>, bool)>,
    memory: Memory,
    mono: u64,
    cfg: Config,
    k: int,
)
    requires
        0 <= k < guardian::shed_plan(units, memory, mono, cfg).0.len(),
    ensures
        !cfg.observe_only,
        exists|i: int|
            0 <= i < units.len() && #[trigger] units[i] == (
                guardian::shed_plan(units, memory, mono, cfg).0[k]->Stop_0,
                true,
            ),
        guardian::shed_plan(units, memory, mono, cfg).0[k] is Stop,
    decreases units.len(),
{
    if units.len() != 0 {
        let before = guardian::shed_plan(units.drop_last(), memory, mono, cfg).0;
        let all = guardian::shed_plan(units, memory, mono, cfg).0;
        if k < before.len() {
            lemma_planned_stops(units.drop_last(), memory, mono, cfg, k);
            let i = choose|i: int|
                0 <= i < units.drop_last().len() && #[trigger] units.drop_last()[i] == (
                    before[k]->Stop_0,
                    true,
                );
            assert(all[k] == before[k]);
            assert(units[i] == units.drop_last()[i]);
        } else {
            let last = units.len() - 1;
            assert(units[last] == (all[k]->Stop_0, true));
        }
    }
}

/// The only thing that is ever done to the host is to stop a unit that the configuration lists,
/// that is active, while an emergency counts, on a live run that is not observe-only.
pub proof fn only_listed_units_are_stopped(
    cfg: Config,
    readings: Readings,
    ev: Evaluation,
    counters: Map<Seq<char>, u32>,
    memory: Memory,
    now: u64,
    mono: u64,
    mode: Mode,
    k: int,
)
    requires
        guardian::evaluates_to(cfg, readings, ev),
        0 <= k < guardian::run_plan(cfg, counters, memory, ev, now, mono, mode).0.len(),
        guardian::run_plan(cfg, counters, memory, ev, now, mono, mode).0[k] is Stop,
    ensures
        mode == Mode::Live,
        !cfg.observe_only,
        guardian::gated_emergency(cfg, counters, ev) != Gated::No,
        pressure::emergency(ev.pressure, cfg.memory),
        exists|i: int|
            0 <= i < cfg.shed_units@.len() && readings.unit_active@[i] && (
            #[trigger] cfg.shed_units@[i])@ == guardian::run_plan(
                cfg,
                counters,
                memory,
                ev,
                now,
                mono,
                mode,
            ).0[k]->Stop_0,
        config::fault(cfg) is None ==> config::safe_unit(
            guardian::run_plan(cfg, counters, memory, ev, now, mono, mode).0[k]->Stop_0,
        ),
{
    let all = guardian::run_plan(cfg, counters, memory, ev, now, mono, mode).0;
    let first = guardian::gated_mounts(cfg, counters, ev, now).0;
    let emergency = guardian::gated_emergency(cfg, counters, ev);
    let second = guardian::emergency_plan(cfg, memory, ev, emergency, now, mono).0;
    let found = metrics::findings(ev.mounts@);
    lemma_mounts_are_recorded(
        found,
        gate::observed(
            counters,
            guardian::emergency_key(),
            pressure::emergency(ev.pressure, cfg.memory),
        ),
        cfg.consecutive_samples,
        now,
    );
    if k < first.len() {
        assert(all[k] == first[k]);
    }
    assert(all[k] == second[k - first.len()]);
    let units = metrics::activity(ev.unit_active@);
    let stops = guardian::shed_plan(units, memory, mono, cfg).0;
    let offset: int = if emergency == Gated::Newly {
        1
    } else {
        0
    };
    let j = k - first.len() - offset;
    assert(j >= 0 && all[k] == stops[j]);
    lemma_planned_stops(units, memory, mono, cfg, j);
    let i = choose|i: int|
        0 <= i < units.len() && #[trigger] units[i] == (stops[j]->Stop_0, true);
    let listed = Seq::new(
        cfg.shed_units@.len(),
        |i: int| (cfg.shed_units@[i]@, readings.unit_active@[i]),
    );
    assert(units == listed);
    assert(listed[i] == (cfg.shed_units@[i]@, readings.unit_active@[i]));
    assert(cfg.shed_units@[i]@ == all[k]->Stop_0);
    config::accepted_exactly_where_sound(cfg);
    if config::fault(cfg) is None {
        assert(config::safe_unit(cfg.shed_units[i]@));
    }
}

/// The condition of a mount is not that of the memory emergency.
pub(crate) proof fn lemma_keys_differ(path: Seq<char>)
    ensures
        guardian::mount_key(path) != guardian::emergency_key(),
{
    reveal_strlit("mount:");
    reveal_strlit("memory_emergency");
    assert(guardian::mount_key(path)[1] == 'o');
    assert(guardian::emergency_key()[1] == 'e');
}

/// Different mountpoints have different conditions.
proof fn lemma_mount_keys_differ(a: Seq<char>, b: Seq<char>)
    requires
        a != b,
    ensures
        guardian::mount_key(a) != guardian::mount_key(b),
{
    if guardian::mount_key(a) == guardian::mount_key(b) {
        let n = "mount:"@.len() as int;
        assert(guardian::mount_key(a).skip(n) == a);
        assert(guardian::mount_key(b).skip(n) == b);
    }
}

/// Mounts leave the counter of the emergency alone, and their counters do not depend on time.
proof fn lemma_mounts_leave_emergency(
    found: Seq<(Seq<char>, Finding)>,
    counters: Map<Seq<char>, u32>,
    required: u32,
    now: u64,
)
    ensures
        guardian::mount_plan(found, counters, required, now).1 == guardian::mount_plan(
            found,
            counters,
            required,
            0,
        ).1,
        guardian::mount_plan(found, counters, required, now).1.contains_key(
            guardian::emergency_key(),
        ) == counters.contains_key(guardian::emergency_key()),
        counters.contains_key(guardian::emergency_key()) ==> guardian::mount_plan(
            found,
            counters,
            required,
            now,
        ).1[guardian::emergency_key()] == counters[guardian::emergency_key()],
    decreases found.len(),
{
    if found.len() != 0 {
        lemma_mounts_leave_emergency(found.drop_last(), counters, required, now);
        lemma_keys_differ(found.last().0);
    }
}

/// The counters of a gate that was new before these evaluations were run, in order.
pub open spec fn counters_after(cfg: Config, evs: Seq<Evaluation>) -> Map<Seq<char>, u32>
    decreases evs.len(),
{
    if evs.len() == 0 {
        Map::empty()
    } else {
        guardian::gated_mounts(cfg, counters_after(cfg, evs.drop_last()), evs.last(), 0).1
    }
}

/// How many of the evaluations in a row, up to the last, read an emergency.
pub open spec fn emergencies_in_a_row(cfg: Config, evs: Seq<Evaluation>) -> nat
    decreases evs.len(),
{
    if evs.len() == 0 || !pressure::emergency(evs.last().pressure, cfg.memory) {
        0
    } else {
        emergencies_in_a_row(cfg, evs.drop_last()) + 1
    }
}

/// The counter of the emergency follows the emergencies in a row.
proof fn lemma_emergency_counter(cfg: Config, evs: Seq<Evaluation>)
    ensures
        counters_after(cfg, evs).contains_key(guardian::emergency_key()) <==> emergencies_in_a_row(
            cfg,
            evs,
        ) > 0,
        emergencies_in_a_row(cfg, evs) > 0 ==> counters_after(
            cfg,
            evs,
        )[guardian::emergency_key()] == if emergencies_in_a_row(cfg, evs) <= u32::MAX {
            emergencies_in_a_row(cfg, evs) as u32
        } else {
            u32::MAX
        },
    decreases evs.len(),
{
    if evs.len() != 0 {
        let earlier = evs.drop_last();
        let ev = evs.last();
        lemma_emergency_counter(cfg, earlier);
        lemma_mounts_leave_emergency(
            metrics::findings(ev.mounts@),
            gate::observed(
                counters_after(cfg, earlier),
                guardian::emergency_key(),
                pressure::emergency(ev.pressure, cfg.memory),
            ),
            cfg.consecutive_samples,
            0,
        );
    }
}

/// What a run leaves in a [`Gate`](crate::gate::Gate) does not depend on when it was run.
pub proof fn run_time_leaves_no_trace(
    cfg: Config,
    counters: Map<Seq<char>, u32>,
    ev: Evaluation,
    now: u64,
)
    ensures
        guardian::gated_mounts(cfg, counters, ev, now).1 == guardian::gated_mounts(
            cfg,
            counters,
            ev,
            0,
        ).1,
{
    lemma_mounts_leave_emergency(
        metrics::findings(ev.mounts@),
        gate::observed(
            counters,
            guardian::emergency_key(),
            pressure::emergency(ev.pressure, cfg.memory),
        ),
        cfg.consecutive_samples,
        now,
    );
}

/// Conditions must persist: when evaluations are run in turn, the emergency counts on the last
/// of them exactly if the last `consecutive_samples` all read one, and it is new, and so
/// recorded, exactly if no more than those do.
///
/// Of the largest possible `consecutive_samples` only the first half is said: counters stop
/// there.
pub proof fn emergency_must_persist(cfg: Config, evs: Seq<Evaluation>)
    requires
        evs.len() > 0,
        cfg.consecutive_samples >= 1,
    ensures
        ({
            let n = emergencies_in_a_row(cfg, evs);
            let gated = guardian::gated_emergency(
                cfg,
                counters_after(cfg, evs.drop_last()),
                evs.last(),
            );
            &&& gated != Gated::No <==> n >= cfg.consecutive_samples
            &&& cfg.consecutive_samples < u32::MAX ==> (gated == Gated::Newly <==> n
                == cfg.consecutive_samples)
        }),
{
    lemma_emergency_counter(cfg, evs.drop_last());
}

/// In observe-only mode an emergency is recorded when it starts, and nothing else is done about
/// it, however long it lasts; nor is any action remembered.
pub proof fn observe_only_records_the_onset_alone(
    cfg: Config,
    memory: Memory,
    ev: Evaluation,
    emergency: Gated,
    now: u64,
    mono: u64,
)
    requires
        cfg.observe_only,
    ensures
        guardian::emergency_plan(cfg, memory, ev, emergency, now, mono).0 == if emergency
            == Gated::Newly {
            seq![guardian::onset(cfg, memory, ev, now, mono)]
        } else {
            Seq::empty()
        },
        guardian::emergency_plan(cfg, memory, ev, emergency, now, mono).1.last_action
            == memory.last_action,
        guardian::emergency_plan(cfg, memory, ev, emergency, now, mono).1.history.len()
            <= memory.history.len(),
{
    lemma_observe_only(metrics::activity(ev.unit_active@), memory, mono, cfg);
    let stops = guardian::shed_plan(metrics::activity(ev.unit_active@), memory, mono, cfg).0;
    assert(stops == Seq::<StepText>::empty());
    let record = seq![guardian::onset(cfg, memory, ev, now, mono)];
    assert(record + stops == record);
    assert(Seq::<StepText>::empty() + stops == Seq::<StepText>::empty());
}

/// In observe-only mode the record of the start names exactly the units that the same evaluation
/// would stop, with the same budget, if units might be stopped; there it would stop those, and do
/// nothing else but record the start.
pub proof fn observe_only_tells_what_it_would_stop(
    cfg: Config,
    memory: Memory,
    ev: Evaluation,
    now: u64,
    mono: u64,
)
    requires
        cfg.observe_only,
    ensures
        ({
            let observed = guardian::emergency_plan(cfg, memory, ev, Gated::Newly, now, mono).0;
            let acting = guardian::emergency_plan(
                guardian::live(cfg),
                memory,
                ev,
                Gated::Newly,
                now,
                mono,
            ).0;
            let units = guardian::stopped_units(acting.skip(1));
            &&& observed.len() == 1
            &&& observed[0] is Record
            &&& observed[0]->Record_1.contains(("would_stop"@, FieldText::Texts(units)))
            &&& acting.len() > 0
            &&& acting[0] is Record
            &&& forall|k: int| 1 <= k < acting.len() ==> (#[trigger] acting[k]) is Stop
        }),
{
    let free = guardian::live(cfg);
    let all = metrics::activity(ev.unit_active@);
    let stops = guardian::shed_plan(all, memory, mono, free).0;
    let acting = guardian::emergency_plan(free, memory, ev, Gated::Newly, now, mono).0;
    observe_only_records_the_onset_alone(cfg, memory, ev, Gated::Newly, now, mono);
    assert(acting.skip(1) == stops);
    let told = guardian::onset(cfg, memory, ev, now, mono)->Record_1;
    assert(told.last() == ("would_stop"@, FieldText::Texts(guardian::stopped_units(stops))));
    assert forall|k: int| 1 <= k < acting.len() implies (#[trigger] acting[k]) is Stop by {
        assert(acting[k] == stops[k - 1]);
        lemma_planned_stops(all, memory, mono, free, k - 1);
    }
}

/// In observe-only mode no unit is shed, and no action remembered.
proof fn lemma_observe_only(
    units: Seq<(Seq<char>, bool)>,
    memory: Memory,
    mono: u64,
    cfg: Config,
)
    requires
        cfg.observe_only,
    ensures
        guardian::shed_plan(units, memory, mono, cfg).0 == Seq::<StepText>::empty(),
        guardian::shed_plan(units, memory, mono, cfg).1.last_action == memory.last_action,
        guardian::shed_plan(units, memory, mono, cfg).1.history.len() <= memory.history.len(),
    decreases units.len(),
{
    if units.len() != 0 {
        lemma_observe_only(units.drop_last(), memory, mono, cfg);
        let before = guardian::shed_plan(units.drop_last(), memory, mono, cfg).1;
        let unit = units.last().0;
        actions::observe_only_mirrors_the_live_path(before, unit, mono, cfg.actions);
        actions::suppressed_attempts_consume_nothing(before, unit, mono, cfg.actions, true);
    }
}

/// The requests that active units make of the budget, in order.
pub open spec fn unit_requests(units: Seq<(Seq<char>, bool)>, mono: u64, observe_only: bool) -> Seq<
    Request,
>
    decreases units.len(),
{
    if units.len() == 0 {
        Seq::empty()
    } else {
        let before = unit_requests(units.drop_last(), mono, observe_only);
        if units.last().1 {
            before.push(Request { unit: units.last().0, now: mono, observe_only })
        } else {
            before
        }
    }
}

/// What is planned for units is what the budget answers to their requests: it remembers what it
/// remembers after those, and as many stops are planned as requests are admitted. What holds of
/// requests to a budget, its window and its cooldowns, therefore holds of the units that runs
/// stop.
pub proof fn stops_are_admitted_requests(
    units: Seq<(Seq<char>, bool)>,
    earlier: Seq<Request>,
    mono: u64,
    cfg: Config,
)
    ensures
        ({
            let all = earlier + unit_requests(units, mono, cfg.observe_only);
            let (stops, memory) = guardian::shed_plan(
                units,
                actions::after(cfg.actions, earlier),
                mono,
                cfg,
            );
            &&& memory == actions::after(cfg.actions, all)
            &&& actions::shed_times(cfg.actions, all) == actions::shed_times(cfg.actions, earlier)
                + Seq::new(stops.len(), |i: int| mono)
        }),
    decreases units.len(),
{
    let policy = cfg.actions;
    let start = actions::after(policy, earlier);
    let (stops, memory) = guardian::shed_plan(units, start, mono, cfg);
    let all = earlier + unit_requests(units, mono, cfg.observe_only);
    let times = actions::shed_times(policy, earlier);
    if units.len() == 0 {
        assert(all == earlier);
        assert(times + Seq::new(stops.len(), |i: int| mono) == times);
    } else {
        let shorter = units.drop_last();
        stops_are_admitted_requests(shorter, earlier, mono, cfg);
        let fewer = guardian::shed_plan(shorter, start, mono, cfg).0;
        let before = earlier + unit_requests(shorter, mono, cfg.observe_only);
        if units.last().1 {
            assert(all.drop_last() == before);
            assert(all.last() == Request {
                unit: units.last().0,
                now: mono,
                observe_only: cfg.observe_only,
            });
            let filled = Seq::new(fewer.len(), |i: int| mono);
            assert((times + filled).push(mono) == times + Seq::new(
                (fewer.len() + 1) as nat,
                |i: int| mono,
            ));
        } else {
            assert(all == before);
        }
    }
}

/// A sensor that cannot be read never makes an emergency: not a meminfo without its line, and,
/// with a threshold above zero, not a PSI file without its own. The failure is an error of the
/// evaluation, so the host is not reported as up.
pub proof fn unreadable_sensor_is_no_emergency(
    cfg: Config,
    readings: Readings,
    ev: Evaluation,
    thresholds: EmergencyThresholds,
)
    requires
        guardian::evaluates_to(cfg, readings, ev),
        guardian::mem_outcome(readings.meminfo) is Err || (guardian::psi_outcome(
            readings.psi,
            readings.psi_number,
        ) is Err && thresholds.full_psi_percent.units() > 0),
    ensures
        !pressure::emergency(ev.pressure, thresholds),
        ev.errors@.len() > 0,
{
    let errors = text::texts(ev.errors@);
    assert(errors.len() == ev.errors@.len());
    assert(percent::distance(0) == 0);
}

/// Two units never share a record: the events under which their stops are recorded differ.
pub proof fn units_have_records_of_their_own(a: Seq<char>, b: Seq<char>)
    requires
        a != b,
    ensures
        "memory-emergency-"@ + a != "memory-emergency-"@ + b,
{
    let prefix = "memory-emergency-"@;
    if prefix + a == prefix + b {
        assert((prefix + a).skip(prefix.len() as int) == a);
        assert((prefix + b).skip(prefix.len() as int) == b);
    }
}

/// Whether two sets of counters agree on a condition.
pub open spec fn agree(a: Map<Seq<char>, u32>, b: Map<Seq<char>, u32>, key: Seq<char>) -> bool {
    a.contains_key(key) == b.contains_key(key) && (a.contains_key(key) ==> a[key] == b[key])
}

/// Whether `path` is among what was found, at position `i` and nowhere else.
pub open spec fn found_only_at(found: Seq<(Seq<char>, Finding)>, path: Seq<char>, i: int) -> bool {
    0 <= i < found.len() && forall|k: int|
        0 <= k < found.len() ==> ((#[trigger] found[k]).0 == path <==> k == i)
}

/// Whether nothing was found out about `path`.
pub open spec fn not_found(found: Seq<(Seq<char>, Finding)>, path: Seq<char>) -> bool {
    forall|k: int| 0 <= k < found.len() ==> (#[trigger] found[k]).0 != path
}

/// The mounts at other paths leave the condition of a path alone, and are not recorded under it.
proof fn lemma_other_paths(
    found: Seq<(Seq<char>, Finding)>,
    counters: Map<Seq<char>, u32>,
    required: u32,
    now: u64,
    path: Seq<char>,
)
    requires
        not_found(found, path),
    ensures
        agree(
            guardian::mount_plan(found, counters, required, now).1,
            counters,
            guardian::mount_key(path),
        ),
        forall|f: Finding|
            !guardian::mount_plan(found, counters, required, now).0.contains(
                #[trigger] guardian::mount_record(path, f, now),
            ),
    decreases found.len(),
{
    if found.len() != 0 {
        let shorter = found.drop_last();
        assert forall|k: int| 0 <= k < shorter.len() implies (#[trigger] shorter[k]).0 != path by {
            assert(shorter[k] == found[k]);
        }
        lemma_other_paths(shorter, counters, required, now, path);
        let other = found[found.len() - 1].0;
        lemma_mount_keys_differ(other, path);
        let before = guardian::mount_plan(shorter, counters, required, now).0;
        let all = guardian::mount_plan(found, counters, required, now).0;
        assert forall|f: Finding| !all.contains(
            #[trigger] guardian::mount_record(path, f, now),
        ) by {
            let r = guardian::mount_record(path, f, now);
            if all.contains(r) {
                let k = choose|k: int| 0 <= k < all.len() && all[k] == r;
                if k < before.len() {
                    assert(before[k] == r);
                    assert(before.contains(r));
                }
            }
        }
    }
}

/// What gating makes of one path among others is what it makes of that path alone.
pub(crate) proof fn lemma_one_path(
    found: Seq<(Seq<char>, Finding)>,
    counters: Map<Seq<char>, u32>,
    required: u32,
    now: u64,
    path: Seq<char>,
    i: int,
)
    requires
        found_only_at(found, path, i),
    ensures
        agree(
            guardian::mount_plan(found, counters, required, now).1,
            gate::observed(
                counters,
                guardian::mount_key(path),
                found[i].1 != Finding::Expected,
            ),
            guardian::mount_key(path),
        ),
        guardian::mount_plan(found, counters, required, now).0.contains(
            guardian::mount_record(path, found[i].1, now),
        ) <==> gate::answer(
            counters,
            guardian::mount_key(path),
            found[i].1 != Finding::Expected,
            required,
        ) == Gated::Newly,
    decreases found.len(),
{
    let shorter = found.drop_last();
    let last = found.len() - 1;
    let before = guardian::mount_plan(shorter, counters, required, now).0;
    let all = guardian::mount_plan(found, counters, required, now).0;
    let r = guardian::mount_record(path, found[i].1, now);
    if i == last {
        assert forall|k: int| 0 <= k < shorter.len() implies (#[trigger] shorter[k]).0 != path by {
            assert(shorter[k] == found[k]);
        }
        lemma_other_paths(shorter, counters, required, now, path);
        if all.len() > before.len() {
            assert(all[before.len() as int] == r);
        } else {
            assert(all == before);
            assert(!before.contains(r));
        }
    } else {
        assert forall|k: int| 0 <= k < shorter.len() implies ((#[trigger] shorter[k]).0 == path
            <==> k == i) by {
            assert(shorter[k] == found[k]);
        }
        assert(shorter[i] == found[i]);
        lemma_one_path(shorter, counters, required, now, path, i);
        lemma_mount_keys_differ(found[last].0, path);
        if before.contains(r) {
            let k = choose|k: int| 0 <= k < before.len() && before[k] == r;
            assert(all[k] == r);
        }
        if all.contains(r) {
            let k = choose|k: int| 0 <= k < all.len() && all[k] == r;
            if k < before.len() {
                assert(before[k] == r);
            }
        }
    }
}

/// How many times in a row, up to the last evaluation that judged `path`, something else than
/// expected was found there. Evaluations that could not judge it do not matter.
pub open spec fn bad_in_a_row(evs: Seq<Evaluation>, path: Seq<char>) -> nat
    decreases evs.len(),
{
    if evs.len() == 0 {
        0
    } else {
        let found = metrics::findings(evs.last().mounts@);
        if not_found(found, path) {
            bad_in_a_row(evs.drop_last(), path)
        } else if found.contains((path, Finding::Expected)) {
            0
        } else {
            bad_in_a_row(evs.drop_last(), path) + 1
        }
    }
}

/// Whether each evaluation judges `path` at most once.
pub open spec fn judged_at_most_once(evs: Seq<Evaluation>, path: Seq<char>) -> bool {
    forall|n: int|
        0 <= n < evs.len() ==> not_found(
            metrics::findings((#[trigger] evs[n]).mounts@),
            path,
        ) || exists|i: int| found_only_at(metrics::findings(evs[n].mounts@), path, i)
}

/// The counter of a mount follows how often in a row it was bad.
proof fn lemma_mount_counter(cfg: Config, evs: Seq<Evaluation>, path: Seq<char>)
    requires
        judged_at_most_once(evs, path),
    ensures
        counters_after(cfg, evs).contains_key(guardian::mount_key(path)) <==> bad_in_a_row(
            evs,
            path,
        ) > 0,
        bad_in_a_row(evs, path) > 0 ==> counters_after(cfg, evs)[guardian::mount_key(path)]
            == if bad_in_a_row(evs, path) <= u32::MAX {
            bad_in_a_row(evs, path) as u32
        } else {
            u32::MAX
        },
    decreases evs.len(),
{
    if evs.len() != 0 {
        let earlier = evs.drop_last();
        let ev = evs[evs.len() - 1];
        let found = metrics::findings(ev.mounts@);
        assert forall|n: int| 0 <= n < earlier.len() implies not_found(
            metrics::findings((#[trigger] earlier[n]).mounts@),
            path,
        ) || exists|i: int| found_only_at(metrics::findings(earlier[n].mounts@), path, i) by {
            assert(earlier[n] == evs[n]);
        }
        lemma_mount_counter(cfg, earlier, path);
        lemma_keys_differ(path);
        let counters = gate::observed(
            counters_after(cfg, earlier),
            guardian::emergency_key(),
            pressure::emergency(ev.pressure, cfg.memory),
        );
        if not_found(found, path) {
            lemma_other_paths(found, counters, cfg.consecutive_samples, 0, path);
        } else {
            let i = choose|i: int| found_only_at(found, path, i);
            lemma_one_path(found, counters, cfg.consecutive_samples, 0, path, i);
            lemma_expected_there(found, path, i);
        }
    }
}

/// A path that was judged once was found as expected exactly if that judgment says so.
proof fn lemma_expected_there(found: Seq<(Seq<char>, Finding)>, path: Seq<char>, i: int)
    requires
        found_only_at(found, path, i),
    ensures
        found.contains((path, Finding::Expected)) <==> found[i].1 == Finding::Expected,
        !not_found(found, path),
{
    assert(found[i].0 == path);
    if found[i].1 == Finding::Expected {
        assert(found[i] == (path, Finding::Expected));
    }
    if found.contains((path, Finding::Expected)) {
        let k = choose|k: int| 0 <= k < found.len() && found[k] == (path, Finding::Expected);
        assert(found[k].0 == path);
    }
}

/// A bad mount is recorded once, not once per run: when evaluations are run in turn, what the
/// last of them found at `path` is recorded exactly if it has now been bad `consecutive_samples`
/// times in a row. It must have been bad that often, and is recorded again only after it was
/// found as expected in between.
///
/// The largest possible `consecutive_samples` is left out: counters stop there.
pub proof fn bad_mount_is_recorded_once_per_streak(
    cfg: Config,
    evs: Seq<Evaluation>,
    path: Seq<char>,
    i: int,
    now: u64,
)
    requires
        evs.len() > 0,
        1 <= cfg.consecutive_samples < u32::MAX,
        judged_at_most_once(evs, path),
        found_only_at(metrics::findings(evs.last().mounts@), path, i),
    ensures
        guardian::gated_mounts(
            cfg,
            counters_after(cfg, evs.drop_last()),
            evs.last(),
            now,
        ).0.contains(
            guardian::mount_record(path, metrics::findings(evs.last().mounts@)[i].1, now),
        ) <==> bad_in_a_row(evs, path) == cfg.consecutive_samples,
{
    let earlier = evs.drop_last();
    let ev = evs[evs.len() - 1];
    let found = metrics::findings(ev.mounts@);
    assert forall|n: int| 0 <= n < earlier.len() implies not_found(
        metrics::findings((#[trigger] earlier[n]).mounts@),
        path,
    ) || exists|i: int| found_only_at(metrics::findings(earlier[n].mounts@), path, i) by {
        assert(earlier[n] == evs[n]);
    }
    lemma_mount_counter(cfg, earlier, path);
    lemma_keys_differ(path);
    let counters = gate::observed(
        counters_after(cfg, earlier),
        guardian::emergency_key(),
        pressure::emergency(ev.pressure, cfg.memory),
    );
    lemma_one_path(found, counters, cfg.consecutive_samples, now, path, i);
    lemma_expected_there(found, path, i);
}

/// The alert fires when a volume is no longer the expected one: for each expectation, in order,
/// `mount_ok` is 1 exactly where the filesystem that a process sees at its path is the expected
/// one, and `mount_present` exactly where any is mounted there.
pub proof fn alert_tells_a_replaced_volume(
    cfg: Config,
    readings: Readings,
    ev: Evaluation,
    i: int,
)
    requires
        guardian::evaluates_to(cfg, readings, ev),
        readings.mountinfo is Ok,
        mounts::mount_lines(text::lines(readings.mountinfo->Ok_0@)) is Ok,
        0 <= i < cfg.mount_expectations@.len(),
    ensures
        ({
            let want = cfg.mount_expectations@[i];
            let there = mount_laws::last_on(text::lines(readings.mountinfo->Ok_0@), want.path@);
            let found = metrics::findings(ev.mounts@);
            &&& found.len() == cfg.mount_expectations@.len()
            &&& metrics::mount_ok_lines(found)[i] == metrics::sample_line(
                metrics::labelled("host_guardian_mount_ok"@, "path"@, want.path@),
                text::flag(there == Some(want.identity())),
            )
            &&& metrics::mount_present_lines(found)[i] == metrics::sample_line(
                metrics::labelled("host_guardian_mount_present"@, "path"@, want.path@),
                text::flag(there is Some),
            )
        }),
{
    let want = cfg.mount_expectations@[i];
    let all = text::lines(readings.mountinfo->Ok_0@);
    let found = metrics::findings(ev.mounts@);
    mount_laws::verdict_tells_what_is_mounted(all, want);
    assert(found[i] == (want.path@, mounts::finding(want, mounts::mount_lines(all)->Ok_0)));
}

} // verus!
