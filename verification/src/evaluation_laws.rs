//! Laws of evaluations and runs: what follows from the readings, and nothing else.

use crate::actions;
use crate::actions::{Budget, Decision, Memory};
use crate::config::Config;
use crate::gate;
use crate::gate::{Gate, Gated};
use crate::guardian;
use crate::guardian::{Evaluation, Mode, Readings, Run, Stalled, Step, StepText};
use crate::guardian_laws;
use crate::incident;
use crate::incident::FieldText;
use crate::metrics;
use crate::mounts;
use crate::mounts::{Finding, Identity, MountError, MountTable, MountVerdict};
use crate::percent::Percent;
use crate::pressure;
use crate::pressure::SensorError;
use crate::publish_laws;
use crate::text;
use vstd::prelude::*;

verus! {

/// The available memory is what the text of meminfo says, or the error that it does not say it;
/// a file that could not be read is an error by its name.
pub proof fn memory_is_what_meminfo_says(
    reading: Result<String, String>,
    content: &str,
    said: Result<u64, SensorError>,
)
    requires
        reading matches Ok(s) ==> s@ == content@,
        reading is Ok ==> pressure::mem_fits(content@),
        call_ensures(pressure::parse_mem_available, (content,), said),
    ensures
        match (reading, said) {
            (Err(why), _) => guardian::mem_outcome(reading) == Err::<u64, Seq<char>>(
                "/proc/meminfo: "@ + why@,
            ),
            (Ok(_), Ok(bytes)) => guardian::mem_outcome(reading) == Ok::<u64, Seq<char>>(bytes),
            (Ok(_), Err(SensorError::Malformed { file, reason })) => guardian::mem_outcome(reading)
                == Err::<u64, Seq<char>>(file@ + ": "@ + reason@),
        },
{
}

/// The stalled share of time is what the PSI file says, with the texts that were given for it, or
/// the error that it does not say it; a file that could not be read is an error by its name.
pub proof fn stall_is_what_psi_says(
    reading: Result<String, String>,
    number: Option<Stalled>,
    content: &str,
    said: Result<Percent, SensorError>,
)
    requires
        reading matches Ok(s) ==> s@ == content@,
        call_ensures(
            pressure::parse_psi_full_avg10,
            (
                content,
                match number {
                    Some(stalled) => Some(stalled.percent),
                    None => None::<Percent>,
                },
            ),
            said,
        ),
    ensures
        match (reading, said) {
            (Err(why), _) => guardian::psi_outcome(reading, number) == Err::<Stalled, Seq<char>>(
                "/proc/pressure/memory: "@ + why@,
            ),
            (Ok(_), Ok(percent)) => {
                &&& guardian::psi_outcome(reading, number) is Ok
                &&& guardian::psi_outcome(reading, number)->Ok_0 == number->0
                &&& number is Some
                &&& number->0.percent == percent
            },
            (Ok(_), Err(SensorError::Malformed { file, reason })) => guardian::psi_outcome(
                reading,
                number,
            ) == Err::<Stalled, Seq<char>>(file@ + ": "@ + reason@),
        },
{
}

/// What is mounted is what the text of mountinfo says, or the error that it does not say it; a
/// file that could not be read is an error by its name.
pub proof fn mounts_are_what_mountinfo_says(
    reading: Result<String, String>,
    content: &str,
    said: Result<MountTable, MountError>,
)
    requires
        reading matches Ok(s) ==> s@ == content@,
        call_ensures(mounts::parse_mountinfo, (content,), said),
    ensures
        match (reading, said) {
            (Err(why), _) => guardian::mount_outcome(reading) == Err::<
                Map<Seq<char>, Identity>,
                Seq<char>,
            >("/proc/self/mountinfo: "@ + why@),
            (Ok(_), Ok(table)) => guardian::mount_outcome(reading) == Ok::<
                Map<Seq<char>, Identity>,
                Seq<char>,
            >(table@),
            (Ok(_), Err(MountError::Malformed { line, reason })) => guardian::mount_outcome(reading)
                == Err::<Map<Seq<char>, Identity>, Seq<char>>(
                "mountinfo line "@ + text::decimal(line as nat) + ": "@ + reason@,
            ),
        },
{
}

/// The verdict that stands for a finding.
pub open spec fn verdict_is(verdict: MountVerdict, found: Finding) -> bool {
    match verdict {
        MountVerdict::Verified => found is Expected,
        MountVerdict::Missing => found is Nothing,
        MountVerdict::Mismatch { actual } => {
            &&& found is Other
            &&& found->Other_0.source == actual.source@
            &&& found->Other_0.fstype == actual.fstype@
            &&& found->Other_0.root == actual.root@
        },
    }
}

/// Findings and activity are those of each mount and unit, in order.
pub proof fn findings_and_activity_are_one_by_one(
    found: Seq<(String, MountVerdict)>,
    units: Seq<(String, bool)>,
)
    ensures
        metrics::findings(found).len() == found.len(),
        forall|i: int|
            0 <= i < found.len() ==> (#[trigger] metrics::findings(found)[i]).0 == found[i].0@
                && verdict_is(found[i].1, metrics::findings(found)[i].1),
        metrics::activity(units).len() == units.len(),
        forall|i: int|
            0 <= i < units.len() ==> #[trigger] metrics::activity(units)[i] == (
                units[i].0@,
                units[i].1,
            ),
{
}

/// An evaluation holds what each sensor says. Memory that cannot be told counts as plenty, a stall
/// that cannot be told as none, mounts that cannot be told get no verdict; each of these leaves an
/// error, in this order, and nothing else does.
pub proof fn an_evaluation_holds_what_the_sensors_say(
    cfg: &Config,
    readings: &Readings,
    ev: Evaluation,
)
    requires
        call_ensures(guardian::evaluate, (cfg, readings), ev),
    ensures
        ({
            let mem = guardian::mem_outcome(readings.meminfo);
            let psi = guardian::psi_outcome(readings.psi, readings.psi_number);
            let table = guardian::mount_outcome(readings.mountinfo);
            let first: Seq<Seq<char>> = if mem is Err {
                seq![mem->Err_0]
            } else {
                seq![]
            };
            let second: Seq<Seq<char>> = if psi is Err {
                seq![psi->Err_0]
            } else {
                seq![]
            };
            let third: Seq<Seq<char>> = if table is Err {
                seq![table->Err_0]
            } else {
                seq![]
            };
            &&& mem matches Ok(bytes) ==> ev.pressure.available_bytes == bytes
            &&& mem is Err ==> ev.pressure.available_bytes == 18446744073709551615
            &&& psi matches Ok(stalled) ==> ev.pressure.full_avg10_percent == stalled.percent
                && ev.percent_json@ == stalled.json@ && ev.percent_fixed@ == stalled.fixed@
            &&& psi is Err ==> ev.pressure.full_avg10_percent.bits == 0 && ev.percent_json@
                == "0.0"@ && ev.percent_fixed@ == "0.000000"@
            &&& text::texts(ev.errors@) == first + second + third
            &&& table is Err ==> ev.mounts@.len() == 0
            &&& table is Ok ==> ev.mounts@.len() == cfg.mount_expectations@.len()
            &&& ev.unit_active@.len() == cfg.shed_units@.len()
        }),
{
    assert(metrics::findings(ev.mounts@).len() == ev.mounts@.len());
    assert(metrics::activity(ev.unit_active@).len() == ev.unit_active@.len());
}

/// In an evaluation each expectation has the verdict that the mounts give it.
pub proof fn an_evaluation_judges_each_mount(
    cfg: &Config,
    readings: &Readings,
    ev: Evaluation,
    i: int,
)
    requires
        call_ensures(guardian::evaluate, (cfg, readings), ev),
        guardian::mount_outcome(readings.mountinfo) is Ok,
        0 <= i < cfg.mount_expectations@.len(),
    ensures
        ({
            let want = cfg.mount_expectations@[i];
            let table = guardian::mount_outcome(readings.mountinfo)->Ok_0;
            let there = table.contains_key(want.path@);
            let is = table[want.path@];
            let same = is.source == want.source@ && is.fstype == want.fstype@ && is.root
                == want.root@;
            let verdict = ev.mounts@[i].1;
            &&& ev.mounts@[i].0@ == want.path@
            &&& verdict is Verified <==> there && same
            &&& verdict is Missing <==> !there
            &&& verdict matches MountVerdict::Mismatch { actual } ==> there && !same
                && actual.source@ == is.source && actual.fstype@ == is.fstype && actual.root@
                == is.root
        }),
{
    let found = metrics::findings(ev.mounts@);
    let want = cfg.mount_expectations@[i];
    let table = guardian::mount_outcome(readings.mountinfo)->Ok_0;
    assert(found.len() == ev.mounts@.len());
    assert(found[i] == (ev.mounts@[i].0@, ev.mounts@[i].1@));
    assert(found[i] == (want.path@, mounts::finding(want, table)));
}

/// In an evaluation each unit has the activity that was read of it, whatever the sensors say.
pub proof fn an_evaluation_holds_the_activity_of_each_unit(
    cfg: &Config,
    readings: &Readings,
    ev: Evaluation,
    i: int,
)
    requires
        call_ensures(guardian::evaluate, (cfg, readings), ev),
        0 <= i < cfg.shed_units@.len(),
    ensures
        ev.unit_active@[i].0@ == cfg.shed_units@[i]@,
        ev.unit_active@[i].1 == readings.unit_active@[i],
{
    let active = metrics::activity(ev.unit_active@);
    assert(active.len() == ev.unit_active@.len());
    assert(active[i] == (ev.unit_active@[i].0@, ev.unit_active@[i].1));
    assert(active[i] == (cfg.shed_units@[i]@, readings.unit_active@[i]));
}

/// What steps ask for is what each asks for, in order: a stop its unit, and a record its event and
/// the fields of its incident.
pub proof fn steps_ask_one_by_one(steps: Seq<Step>, k: int)
    requires
        0 <= k < steps.len(),
    ensures
        guardian::step_texts(steps).len() == steps.len(),
        match steps[k] {
            Step::Stop { unit } => guardian::step_texts(steps)[k] == StepText::Stop(unit@),
            Step::Record { event, incident } => guardian::step_texts(steps)[k] == StepText::Record(
                event@,
                incident::fields(incident),
            ),
        },
{
}

/// The text of a finding, with all that was found.
pub open spec fn finding_told(found: Finding) -> Seq<char> {
    match found {
        Finding::Expected => "Ok"@,
        Finding::Nothing => "Missing"@,
        Finding::Other(actual) => "Mismatch { actual: MountIdentity { source: "@ + text::debug_text(
            actual.source,
        ) + ", fstype: "@ + text::debug_text(actual.fstype) + ", root: "@ + text::debug_text(
            actual.root,
        ) + " } }"@,
    }
}

/// Whether `step` records what was found at `path`: under the event `mount:` and the path, with
/// the fields that tell the kind of incident, the path, the finding itself, and the time.
pub open spec fn records_finding(
    step: StepText,
    path: Seq<char>,
    found: Finding,
    now: u64,
) -> bool {
    step == StepText::Record(
        "mount:"@ + path,
        seq![
            ("event"@, FieldText::Text("mount_identity"@)),
            ("path"@, FieldText::Text(path)),
            ("verdict"@, FieldText::Text(finding_told(found))),
            ("timestamp"@, FieldText::Number(now)),
        ],
    )
}

/// How often in a row a condition has been active, by its counter, with one time more.
pub open spec fn once_more(counters: Map<Seq<char>, u32>, key: Seq<char>) -> int {
    let seen: int = if counters.contains_key(key) {
        counters[key] as int
    } else {
        0
    };
    if seen < 4294967295 {
        seen + 1
    } else {
        4294967295
    }
}

/// Mounts are gated and recorded one by one: nothing is done about none; one further mount that is
/// bad is counted once more, and recorded, with what was found there, exactly if that count is the
/// one that is asked for; one that is as expected is forgotten.
pub proof fn a_bad_mount_is_recorded_with_what_was_found(
    earlier: Seq<(Seq<char>, Finding)>,
    path: Seq<char>,
    found: Finding,
    counters: Map<Seq<char>, u32>,
    required: u32,
    now: u64,
)
    ensures
        guardian::mount_plan(Seq::empty(), counters, required, now) == (
            Seq::<StepText>::empty(),
            counters,
        ),
        ({
            let (steps, before) = guardian::mount_plan(earlier, counters, required, now);
            let (longer, after) = guardian::mount_plan(
                earlier.push((path, found)),
                counters,
                required,
                now,
            );
            let key = "mount:"@ + path;
            if found is Expected {
                longer == steps && after == before.remove(key)
            } else {
                &&& after == before.insert(key, once_more(before, key) as u32)
                &&& if once_more(before, key) == required {
                    &&& longer.len() == steps.len() + 1
                    &&& longer.drop_last() == steps
                    &&& records_finding(longer.last(), path, found, now)
                } else {
                    longer == steps
                }
            }
        }),
{
    let all = earlier.push((path, found));
    assert(all.drop_last() == earlier);
    let (steps, before) = guardian::mount_plan(earlier, counters, required, now);
    let record = guardian::mount_record(path, found, now);
    assert(steps.push(record).drop_last() == steps);
    assert(records_finding(record, path, found, now));
}

/// The records of a missing mount and of a replaced one differ, and those of mounts that were
/// replaced differ where what is mounted is quoted differently.
pub proof fn records_of_missing_and_replaced_mounts_differ(
    path: Seq<char>,
    now: u64,
    a: Identity,
    missing: StepText,
    replaced: StepText,
)
    requires
        records_finding(missing, path, Finding::Nothing, now),
        records_finding(replaced, path, Finding::Other(a), now),
    ensures
        missing != replaced,
{
    reveal_strlit("Missing");
    reveal_strlit("Mismatch { actual: MountIdentity { source: ");
    let front = "Mismatch { actual: MountIdentity { source: "@;
    let rest = text::debug_text(a.source) + ", fstype: "@ + text::debug_text(a.fstype) + ", root: "@
        + text::debug_text(a.root) + " } }"@;
    assert(finding_told(Finding::Other(a)) == front + rest);
    assert((front + rest)[3] == 'm');
    assert("Missing"@[3] == 's');
    let x = missing->Record_1;
    let y = replaced->Record_1;
    assert(x[2].1 == FieldText::Text("Missing"@));
    assert(y[2].1 == FieldText::Text(front + rest));
}

/// Units are asked after one by one: nothing is done about none; one further unit that is not
/// active changes nothing; one that is active asks the budget, and is stopped exactly if it is
/// told that it may be shed.
pub proof fn an_active_unit_is_stopped_as_the_budget_says(
    earlier: Seq<(Seq<char>, bool)>,
    unit: Seq<char>,
    active: bool,
    memory: Memory,
    mono: u64,
    cfg: Config,
)
    ensures
        guardian::shed_plan(Seq::empty(), memory, mono, cfg) == (Seq::<StepText>::empty(), memory),
        ({
            let (steps, before) = guardian::shed_plan(earlier, memory, mono, cfg);
            let (longer, after) = guardian::shed_plan(
                earlier.push((unit, active)),
                memory,
                mono,
                cfg,
            );
            let told = actions::decision(before, unit, mono, cfg.actions, cfg.observe_only);
            &&& !active ==> longer == steps && after == before
            &&& active && told != Decision::Shed ==> longer == steps
            &&& active && told == Decision::Shed ==> longer == steps.push(StepText::Stop(unit))
            &&& active ==> after == actions::remembered(
                before,
                unit,
                mono,
                cfg.actions,
                cfg.observe_only,
            )
        }),
{
    assert(earlier.push((unit, active)).drop_last() == earlier);
}

/// Whether memory is below its threshold and stalled time a number at or above its own.
pub open spec fn both_signals(cfg: Config, ev: Evaluation) -> bool {
    &&& ev.pressure.available_bytes < cfg.memory.available_bytes
    &&& !ev.pressure.full_avg10_percent.nan()
    &&& !cfg.memory.full_psi_percent.nan()
    &&& ev.pressure.full_avg10_percent.units() >= cfg.memory.full_psi_percent.units()
}

/// The record that an emergency began: its readings and time, and where units are only observed
/// the units that would have been stopped.
pub open spec fn records_start(
    step: StepText,
    cfg: Config,
    memory: Memory,
    ev: Evaluation,
    now: u64,
    mono: u64,
) -> bool {
    let told = seq![
        ("event"@, FieldText::Text("memory_emergency_began"@)),
        ("available_bytes"@, FieldText::Number(ev.pressure.available_bytes)),
        ("full_psi_percent"@, FieldText::Json(ev.percent_json@)),
        ("timestamp"@, FieldText::Number(now)),
    ];
    let acting = guardian::shed_plan(
        metrics::activity(ev.unit_active@),
        memory,
        mono,
        Config { observe_only: false, ..cfg },
    ).0;
    step == StepText::Record(
        "memory-emergency"@,
        if cfg.observe_only {
            told.push(
                (
                    "would_stop"@,
                    FieldText::Texts(Seq::new(acting.len(), |i: int| acting[i]->Stop_0)),
                ),
            )
        } else {
            told
        },
    )
}

/// What is done about an emergency: nothing unless it counts; when it is new its start is
/// recorded first; then units are stopped as the budget says.
pub proof fn an_emergency_is_recorded_then_acted_on(
    cfg: &Config,
    budget: &mut Budget,
    ev: &Evaluation,
    emergency: Gated,
    now: u64,
    mono: u64,
    steps: Vec<Step>,
)
    requires
        call_ensures(guardian::handle_emergency, (cfg, budget, ev, emergency, now, mono), steps),
    ensures
        ({
            let all = guardian::step_texts(steps@);
            let (stops, after) = guardian::shed_plan(
                metrics::activity(ev.unit_active@),
                old(budget)@,
                mono,
                *cfg,
            );
            match emergency {
                Gated::No => all.len() == 0 && final(budget)@ == old(budget)@,
                Gated::Still => all == stops && final(budget)@ == after,
                Gated::Newly => {
                    &&& all.len() == stops.len() + 1
                    &&& records_start(all[0], *cfg, old(budget)@, *ev, now, mono)
                    &&& all.skip(1) == stops
                    &&& final(budget)@ == after
                },
            }
        }),
{
    lemma_start(*cfg, budget@, *ev, emergency, now, mono);
}

/// The plan for an emergency is the record of its start, if it is new, and the stops.
proof fn lemma_start(
    cfg: Config,
    memory: Memory,
    ev: Evaluation,
    emergency: Gated,
    now: u64,
    mono: u64,
)
    ensures
        ({
            let all = guardian::emergency_plan(cfg, memory, ev, emergency, now, mono).0;
            let units = metrics::activity(ev.unit_active@);
            let stops = guardian::shed_plan(units, memory, mono, cfg).0;
            &&& emergency == Gated::Still ==> all == stops
            &&& emergency == Gated::Newly ==> all.len() == stops.len() + 1 && all.skip(1) == stops
                && records_start(all[0], cfg, memory, ev, now, mono)
        }),
{
    let all = guardian::emergency_plan(cfg, memory, ev, emergency, now, mono).0;
    let stops = guardian::shed_plan(metrics::activity(ev.unit_active@), memory, mono, cfg).0;
    if emergency == Gated::Still {
        assert(Seq::<StepText>::empty() + stops == stops);
    }
    if emergency == Gated::Newly {
        assert(all[0] == guardian::onset(cfg, memory, ev, now, mono));
        assert(all.skip(1) == stops);
    }
}

/// What a run does: a dry one nothing, whatever it finds; a live one records the mounts that
/// newly count as bad, and then deals with the emergency. Both signals make the emergency, and it
/// counts by how often in a row they did. What was counted is remembered either way, and the
/// budget changes only where an emergency that counts is acted on.
pub proof fn a_run_does_what_follows_from_its_evaluation(
    cfg: &Config,
    gate: &mut Gate,
    budget: &mut Budget,
    ev: &Evaluation,
    now: u64,
    mono: u64,
    mode: Mode,
    run: Run,
)
    requires
        call_ensures(guardian::run_once, (cfg, gate, budget, ev, now, mono, mode), run),
    ensures
        ({
            let key = "memory_emergency"@;
            let before = old(gate)@;
            let count = once_more(before, key);
            let active = both_signals(*cfg, *ev);
            let between = if active {
                before.insert(key, count as u32)
            } else {
                before.remove(key)
            };
            let (records, after) = guardian::mount_plan(
                metrics::findings(ev.mounts@),
                between,
                cfg.consecutive_samples,
                now,
            );
            let (stops, left) = guardian::shed_plan(
                metrics::activity(ev.unit_active@),
                old(budget)@,
                mono,
                *cfg,
            );
            let all = guardian::step_texts(run.steps@);
            let n = records.len() as int;
            &&& final(gate)@ == after
            &&& mode == Mode::Dry ==> all.len() == 0 && final(budget)@ == old(budget)@
            &&& mode == Mode::Live ==> all.len() >= n && all.take(n) == records
            &&& mode == Mode::Live && !(active && count >= cfg.consecutive_samples) ==> all.len()
                == n && final(budget)@ == old(budget)@
            &&& mode == Mode::Live && active && count > cfg.consecutive_samples ==> all.skip(n)
                == stops && final(budget)@ == left
            &&& mode == Mode::Live && active && count == cfg.consecutive_samples ==> all.len() == n
                + 1 + stops.len() && records_start(all[n], *cfg, old(budget)@, *ev, now, mono)
                && all.skip(n + 1) == stops && final(budget)@ == left
        }),
{
    let counters = gate@;
    let gated = guardian::gated_emergency(*cfg, counters, *ev);
    let (records, after) = guardian::gated_mounts(*cfg, counters, *ev, now);
    let (planned, left) = guardian::emergency_plan(*cfg, budget@, *ev, gated, now, mono);
    let all = guardian::step_texts(run.steps@);
    let n = records.len() as int;
    lemma_start(*cfg, budget@, *ev, gated, now, mono);
    assert(pressure::emergency(ev.pressure, cfg.memory) == both_signals(*cfg, *ev));
    if mode == Mode::Live {
        assert(all == records + planned);
        assert(all.take(n) == records);
        assert(all.skip(n) == planned);
        if gated == Gated::Newly {
            assert(all[n] == planned[0]);
            assert(all.skip(n + 1) == planned.skip(1));
        }
    }
}

/// No unit is stopped unless both signals hold on this run: not while the stalled share of time is
/// below its threshold, whatever the available memory, nor while memory is not below its own. Nor
/// is any stopped on a dry run, in observe-only mode, or that is not active in the evaluation.
pub proof fn no_unit_is_stopped_without_both_signals(
    cfg: &Config,
    gate: &mut Gate,
    budget: &mut Budget,
    ev: &Evaluation,
    now: u64,
    mono: u64,
    mode: Mode,
    run: Run,
    k: int,
)
    requires
        call_ensures(guardian::run_once, (cfg, gate, budget, ev, now, mono, mode), run),
        0 <= k < run.steps@.len(),
        run.steps@[k] is Stop,
    ensures
        ev.pressure.available_bytes < cfg.memory.available_bytes,
        !ev.pressure.full_avg10_percent.nan(),
        ev.pressure.full_avg10_percent.units() >= cfg.memory.full_psi_percent.units(),
        once_more(old(gate)@, "memory_emergency"@) >= cfg.consecutive_samples,
        mode == Mode::Live,
        !cfg.observe_only,
        exists|i: int|
            0 <= i < ev.unit_active@.len() && (#[trigger] ev.unit_active@[i]).1
                && ev.unit_active@[i].0@ == run.steps@[k]->Stop_unit@,
{
    let counters = gate@;
    let all = guardian::step_texts(run.steps@);
    let gated = guardian::gated_emergency(*cfg, counters, *ev);
    let records = guardian::gated_mounts(*cfg, counters, *ev, now).0;
    let planned = guardian::emergency_plan(*cfg, budget@, *ev, gated, now, mono).0;
    let units = metrics::activity(ev.unit_active@);
    let stops = guardian::shed_plan(units, budget@, mono, *cfg).0;
    let n = records.len() as int;
    steps_ask_one_by_one(run.steps@, k);
    assert(all[k] is Stop);
    guardian_laws::lemma_mounts_are_recorded(
        metrics::findings(ev.mounts@),
        gate::observed(
            counters,
            guardian::emergency_key(),
            pressure::emergency(ev.pressure, cfg.memory),
        ),
        cfg.consecutive_samples,
        now,
    );
    if k < n {
        assert(all[k] == records[k]);
    }
    assert(all[k] == planned[k - n]);
    lemma_start(*cfg, budget@, *ev, gated, now, mono);
    let offset: int = if gated == Gated::Newly {
        1
    } else {
        0
    };
    if gated == Gated::Newly && k - n == 0 {
        assert(records_start(planned[0], *cfg, budget@, *ev, now, mono));
    }
    let j = k - n - offset;
    assert(planned[k - n] == stops[j]);
    guardian_laws::lemma_planned_stops(units, budget@, mono, *cfg, j);
    let i = choose|i: int|
        0 <= i < units.len() && #[trigger] units[i] == (stops[j]->Stop_0, true);
    assert(units[i] == (ev.unit_active@[i].0@, ev.unit_active@[i].1));
    assert(ev.unit_active@[i].1);
    publish_laws::lemma_counts(*cfg, counters, *ev);
}

/// A configuration under which units might be stopped differs in nothing else, and the units of
/// stops are those of each.
pub proof fn what_would_be_stopped_is_told_by_the_live_path(
    cfg: Config,
    steps: Seq<StepText>,
    i: int,
)
    requires
        0 <= i < steps.len(),
    ensures
        !guardian::live(cfg).observe_only,
        guardian::live(cfg).actions == cfg.actions,
        guardian::live(cfg).memory == cfg.memory,
        guardian::live(cfg).consecutive_samples == cfg.consecutive_samples,
        guardian::stopped_units(steps).len() == steps.len(),
        guardian::stopped_units(steps)[i] == steps[i]->Stop_0,
{
}

} // verus!
