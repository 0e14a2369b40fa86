//! One evaluation of the host: what the sensors say, what counts, and what is to be done.
//!
//! Nothing here touches the host. The readings come in as texts and flags, and what is to be
//! done goes out as steps.

use crate::actions;
use crate::actions::{Budget, Decision, Memory};
use crate::config::Config;
use crate::gate;
use crate::gate::{Gate, Gated};
use crate::incident;
use crate::incident::{FieldText, Incident};
use crate::metrics;
use crate::metrics::Snapshot;
use crate::mounts;
use crate::mounts::{Finding, Identity, MountTable, MountVerdict};
use crate::percent::Percent;
use crate::pressure;
use crate::pressure::Pressure;
use crate::text;
use vstd::prelude::*;

verus! {

/// What the stalled share of time was read as: the number, and its texts as JSON and with six
/// decimals.
#[derive(Debug)]
pub struct Stalled {
    pub percent: Percent,
    pub json: String,
    pub fixed: String,
}

/// What was read from the host. A file that could not be read is given by the reason why.
pub struct Readings {
    pub meminfo: Result<String, String>,
    pub psi: Result<String, String>,
    /// The number that the `full avg10` of the PSI file denotes, if it denotes one.
    pub psi_number: Option<Stalled>,
    pub mountinfo: Result<String, String>,
    /// Whether each of the configured units is active, in their order.
    pub unit_active: Vec<bool>,
}

/// What the readings come to.
pub struct Evaluation {
    pub pressure: Pressure,
    /// The stalled share of time as JSON.
    pub percent_json: String,
    /// The stalled share of time with six decimals.
    pub percent_fixed: String,
    pub mounts: Vec<(String, MountVerdict)>,
    pub unit_active: Vec<(String, bool)>,
    pub errors: Vec<String>,
}

/// What a meminfo reading comes to: available bytes, or an error.
pub open spec fn mem_outcome(reading: Result<String, String>) -> Result<u64, Seq<char>> {
    match reading {
        Err(why) => Err("/proc/meminfo: "@ + why@),
        Ok(content) => match pressure::mem_available_kib(text::lines(content@)) {
            Ok(kib) => Ok((kib * 1024) as u64),
            Err(fault) => Err("meminfo"@ + ": "@ + pressure::meminfo_reason(fault)),
        },
    }
}

/// What a PSI reading comes to: the stalled share of time, or an error.
pub open spec fn psi_outcome(reading: Result<String, String>, number: Option<Stalled>) -> Result<
    Stalled,
    Seq<char>,
> {
    match reading {
        Err(why) => Err("/proc/pressure/memory: "@ + why@),
        Ok(content) => match pressure::full_avg10(text::lines(content@)) {
            None => Err("pressure"@ + ": "@ + "no 'full' line with avg10"@),
            Some(value) => match number {
                Some(stalled) => Ok(stalled),
                None => Err(
                    "pressure"@ + ": "@ + ("avg10 value "@ + text::debug_text(value)
                        + " is not a number"@),
                ),
            },
        },
    }
}

/// What a mountinfo reading comes to: what is mounted where, or an error.
pub open spec fn mount_outcome(reading: Result<String, String>) -> Result<
    Map<Seq<char>, Identity>,
    Seq<char>,
> {
    match reading {
        Err(why) => Err("/proc/self/mountinfo: "@ + why@),
        Ok(content) => match mounts::mount_lines(text::lines(content@)) {
            Ok(table) => Ok(table),
            Err((line, reason)) => Err(
                "mountinfo line "@ + text::decimal(line) + ": "@ + reason,
            ),
        },
    }
}

/// The errors, none or one, that a reading comes to.
pub open spec fn errors_of<T>(outcome: Result<T, Seq<char>>) -> Seq<Seq<char>> {
    match outcome {
        Ok(_) => Seq::empty(),
        Err(error) => seq![error],
    }
}

/// What a set of readings comes to. A meminfo that cannot be read counts as plenty of memory, a
/// PSI file that cannot be read as no stall, and a mountinfo that cannot be read as no verdict;
/// each leaves an error.
pub open spec fn evaluates_to(cfg: Config, readings: Readings, ev: Evaluation) -> bool {
    let mem = mem_outcome(readings.meminfo);
    let psi = psi_outcome(readings.psi, readings.psi_number);
    let table = mount_outcome(readings.mountinfo);
    &&& ev.pressure.available_bytes == match mem {
        Ok(bytes) => bytes,
        Err(_) => u64::MAX,
    }
    &&& match psi {
        Ok(stalled) => {
            &&& ev.pressure.full_avg10_percent == stalled.percent
            &&& ev.percent_json@ == stalled.json@
            &&& ev.percent_fixed@ == stalled.fixed@
        },
        Err(_) => {
            &&& ev.pressure.full_avg10_percent == (Percent { bits: 0 })
            &&& ev.percent_json@ == "0.0"@
            &&& ev.percent_fixed@ == "0.000000"@
        },
    }
    &&& metrics::findings(ev.mounts@) == match table {
        Ok(mounted) => Seq::new(
            cfg.mount_expectations@.len(),
            |i: int|
                (
                    cfg.mount_expectations@[i].path@,
                    mounts::finding(cfg.mount_expectations@[i], mounted),
                ),
        ),
        Err(_) => Seq::empty(),
    }
    &&& metrics::activity(ev.unit_active@) == Seq::new(
        cfg.shed_units@.len(),
        |i: int| (cfg.shed_units@[i]@, readings.unit_active@[i]),
    )
    &&& text::texts(ev.errors@) == errors_of(mem) + errors_of(psi) + errors_of(table)
}

/// Joins the place and the reason of an error.
fn located(place: &str, reason: &str) -> (out: String)
    ensures
        out@ == place@ + reason@,
{
    let mut out = place.to_owned();
    out.append(reason);
    out
}

/// Reads the available memory.
fn judge_meminfo(reading: &Result<String, String>) -> (out: Result<u64, String>)
    requires
        reading matches Ok(content) ==> pressure::mem_fits(content@),
    ensures
        match out {
            Ok(bytes) => mem_outcome(*reading) == Ok::<u64, Seq<char>>(bytes),
            Err(error) => mem_outcome(*reading) == Err::<u64, Seq<char>>(error@),
        },
{
    match reading {
        Err(why) => Err(located("/proc/meminfo: ", why.as_str())),
        Ok(content) => match pressure::parse_mem_available(content.as_str()) {
            Ok(bytes) => Ok(bytes),
            Err(error) => Err(error.message()),
        },
    }
}

/// Reads the stalled share of time.
fn judge_psi(reading: &Result<String, String>, number: &Option<Stalled>) -> (out: Result<
    Stalled,
    String,
>)
    ensures
        match out {
            Ok(stalled) => {
                &&& psi_outcome(*reading, *number) matches Ok(found)
                &&& stalled.percent == found.percent
                &&& stalled.json@ == found.json@
                &&& stalled.fixed@ == found.fixed@
            },
            Err(error) => psi_outcome(*reading, *number) == Err::<Stalled, Seq<char>>(error@),
        },
{
    match reading {
        Err(why) => Err(located("/proc/pressure/memory: ", why.as_str())),
        Ok(content) => {
            let percent = match number {
                Some(stalled) => Some(stalled.percent),
                None => None,
            };
            match pressure::parse_psi_full_avg10(content.as_str(), percent) {
                Ok(found) => {
                    let stalled = number.as_ref().unwrap();
                    Ok(
                        Stalled {
                            percent: found,
                            json: stalled.json.clone(),
                            fixed: stalled.fixed.clone(),
                        },
                    )
                },
                Err(error) => Err(error.message()),
            }
        },
    }
}

/// Reads the mount table.
fn judge_mountinfo(reading: &Result<String, String>) -> (out: Result<MountTable, String>)
    ensures
        match out {
            Ok(table) => mount_outcome(*reading) == Ok::<Map<Seq<char>, Identity>, Seq<char>>(
                table@,
            ),
            Err(error) => mount_outcome(*reading) == Err::<Map<Seq<char>, Identity>, Seq<char>>(
                error@,
            ),
        },
{
    match reading {
        Err(why) => Err(located("/proc/self/mountinfo: ", why.as_str())),
        Ok(content) => match mounts::parse_mountinfo(content.as_str()) {
            Ok(table) => Ok(table),
            Err(error) => Err(error.message()),
        },
    }
}

/// Takes note of an error.
fn note(errors: &mut Vec<String>, error: String)
    ensures
        text::texts(final(errors)@) == text::texts(old(errors)@) + seq![error@],
{
    errors.push(error);
}

/// Pairs the configured units with whether they are active.
fn pair_units(units: &Vec<String>, active: &Vec<bool>) -> (out: Vec<(String, bool)>)
    requires
        units.len() == active.len(),
    ensures
        metrics::activity(out@) == Seq::new(units@.len(), |i: int| (units@[i]@, active@[i])),
{
    let mut out: Vec<(String, bool)> = Vec::new();
    let ghost model = Seq::new(units@.len(), |i: int| (units@[i]@, active@[i]));
    let mut i: usize = 0;
    assert(metrics::activity(out@) == model.take(0));
    while i < units.len()
        invariant
            i <= units.len(),
            units.len() == active.len(),
            model == Seq::new(units@.len(), |i: int| (units@[i]@, active@[i])),
            metrics::activity(out@) == model.take(i as int),
        decreases units.len() - i,
    {
        out.push((units[i].clone(), active[i]));
        assert(metrics::activity(out@) == model.take(i as int).push(model[i as int]));
        assert(model.take(i + 1) == model.take(i as int).push(model[i as int]));
        i += 1;
    }
    assert(model.take(i as int) == model);
    out
}

/// Makes an evaluation of what was read from the host.
pub fn evaluate(cfg: &Config, readings: &Readings) -> (ev: Evaluation)
    requires
        readings.meminfo matches Ok(content) ==> pressure::mem_fits(content@),
        readings.unit_active.len() == cfg.shed_units.len(),
    ensures
        evaluates_to(*cfg, *readings, ev),
{
    let mut errors: Vec<String> = Vec::new();
    assert(text::texts(errors@) == Seq::<Seq<char>>::empty());

    let available_bytes = match judge_meminfo(&readings.meminfo) {
        Ok(bytes) => bytes,
        Err(error) => {
            note(&mut errors, error);
            u64::MAX
        },
    };
    assert(text::texts(errors@) == errors_of(mem_outcome(readings.meminfo)));

    let stalled = match judge_psi(&readings.psi, &readings.psi_number) {
        Ok(stalled) => stalled,
        Err(error) => {
            note(&mut errors, error);
            Stalled {
                percent: Percent { bits: 0 },
                json: "0.0".to_owned(),
                fixed: "0.000000".to_owned(),
            }
        },
    };
    assert(text::texts(errors@) == errors_of(mem_outcome(readings.meminfo)) + errors_of(
        psi_outcome(readings.psi, readings.psi_number),
    ));

    let mounts = match judge_mountinfo(&readings.mountinfo) {
        Ok(table) => {
            let found = mounts::verify(cfg.mount_expectations.as_slice(), &table);
            assert(metrics::findings(found@) == Seq::new(
                cfg.mount_expectations@.len(),
                |i: int|
                    (
                        cfg.mount_expectations@[i].path@,
                        mounts::finding(cfg.mount_expectations@[i], table@),
                    ),
            ));
            found
        },
        Err(error) => {
            note(&mut errors, error);
            let none: Vec<(String, MountVerdict)> = Vec::new();
            assert(metrics::findings(none@) == Seq::<(Seq<char>, Finding)>::empty());
            none
        },
    };
    assert(text::texts(errors@) == errors_of(mem_outcome(readings.meminfo)) + errors_of(
        psi_outcome(readings.psi, readings.psi_number),
    ) + errors_of(mount_outcome(readings.mountinfo)));

    Evaluation {
        pressure: Pressure { available_bytes, full_avg10_percent: stalled.percent },
        percent_json: stalled.json,
        percent_fixed: stalled.fixed,
        mounts,
        unit_active: pair_units(&cfg.shed_units, &readings.unit_active),
        errors,
    }
}

/// One thing to do, in its turn.
#[derive(Debug, PartialEq, Eq)]
pub enum Step {
    /// Record what happened, under the name of an event.
    Record { event: String, incident: Incident },
    /// Stop a unit, then record how that went.
    Stop { unit: String },
}

/// What a [`Step`] asks for.
pub enum StepText {
    Record(Seq<char>, Seq<(Seq<char>, FieldText)>),
    Stop(Seq<char>),
}

impl View for Step {
    type V = StepText;

    open spec fn view(&self) -> StepText {
        match self {
            Step::Record { event, incident } => StepText::Record(
                event@,
                incident::fields(*incident),
            ),
            Step::Stop { unit } => StepText::Stop(unit@),
        }
    }
}

/// What steps ask for.
pub open spec fn step_texts(steps: Seq<Step>) -> Seq<StepText> {
    steps.map_values(|s: Step| s@)
}

/// One more step is one more thing asked for.
proof fn lemma_step_push(steps: Seq<Step>, step: Step)
    ensures
        step_texts(steps.push(step)) == step_texts(steps).push(step@),
{
    assert(step_texts(steps.push(step)) == step_texts(steps).push(step@));
}

/// Which units are shed, in order, when each active one asks the budget in turn, and what the
/// budget remembers then.
pub open spec fn shed_plan(
    units: Seq<(Seq<char>, bool)>,
    memory: Memory,
    mono: u64,
    cfg: Config,
) -> (Seq<StepText>, Memory)
    decreases units.len(),
{
    if units.len() == 0 {
        (Seq::empty(), memory)
    } else {
        let (steps, before) = shed_plan(units.drop_last(), memory, mono, cfg);
        let (unit, active) = units.last();
        if !active {
            (steps, before)
        } else {
            (
                if actions::decision(before, unit, mono, cfg.actions, cfg.observe_only)
                    == Decision::Shed {
                    steps.push(StepText::Stop(unit))
                } else {
                    steps
                },
                actions::remembered(before, unit, mono, cfg.actions, cfg.observe_only),
            )
        }
    }
}

/// A configuration as it would be if units might be stopped.
pub open spec fn live(cfg: Config) -> Config {
    Config { observe_only: false, ..cfg }
}

/// The units that steps stop, if stopping units is all they do.
pub open spec fn stopped_units(steps: Seq<StepText>) -> Seq<Seq<char>> {
    Seq::new(steps.len(), |i: int| steps[i]->Stop_0)
}

/// Where nothing may be stopped, the units that would be: those that the same evaluation would
/// stop, with the same budget, if units might be stopped.
pub open spec fn would_stop(cfg: Config, memory: Memory, ev: Evaluation, mono: u64) -> Option<
    Seq<Seq<char>>,
> {
    if cfg.observe_only {
        Some(
            stopped_units(shed_plan(metrics::activity(ev.unit_active@), memory, mono, live(cfg)).0),
        )
    } else {
        None
    }
}

/// The step that records that an emergency began.
pub open spec fn onset(cfg: Config, memory: Memory, ev: Evaluation, now: u64, mono: u64) -> StepText {
    StepText::Record(
        "memory-emergency"@,
        incident::began_fields(
            ev.pressure.available_bytes,
            ev.percent_json@,
            would_stop(cfg, memory, ev, mono),
            now,
        ),
    )
}

/// What is to be done about an emergency, and what the budget remembers then: nothing unless it
/// counts; a record when it is new; and then the units that may be shed.
pub open spec fn emergency_plan(
    cfg: Config,
    memory: Memory,
    ev: Evaluation,
    emergency: Gated,
    now: u64,
    mono: u64,
) -> (Seq<StepText>, Memory) {
    if emergency == Gated::No {
        (Seq::empty(), memory)
    } else {
        let (stops, after) = shed_plan(metrics::activity(ev.unit_active@), memory, mono, cfg);
        (
            (if emergency == Gated::Newly {
                seq![onset(cfg, memory, ev, now, mono)]
            } else {
                Seq::empty()
            }) + stops,
            after,
        )
    }
}

/// Budgets that remember the same of the units plan the same for them.
proof fn lemma_alike_plans(
    units: Seq<(Seq<char>, bool)>,
    all: Seq<(Seq<char>, bool)>,
    a: Memory,
    b: Memory,
    mono: u64,
    cfg: Config,
)
    requires
        a.history == b.history,
        forall|i: int| 0 <= i < all.len() ==> actions::alike(a, b, (#[trigger] all[i]).0),
        forall|i: int| 0 <= i < units.len() ==> all.contains(#[trigger] units[i]),
    ensures
        shed_plan(units, a, mono, cfg).0 == shed_plan(units, b, mono, cfg).0,
        shed_plan(units, a, mono, cfg).1.history == shed_plan(units, b, mono, cfg).1.history,
        forall|i: int|
            0 <= i < all.len() ==> actions::alike(
                shed_plan(units, a, mono, cfg).1,
                shed_plan(units, b, mono, cfg).1,
                (#[trigger] all[i]).0,
            ),
    decreases units.len(),
{
    if units.len() != 0 {
        let fewer = units.drop_last();
        assert forall|i: int| 0 <= i < fewer.len() implies all.contains(#[trigger] fewer[i]) by {
            assert(fewer[i] == units[i]);
        }
        lemma_alike_plans(fewer, all, a, b, mono, cfg);
        assert(all.contains(units[units.len() - 1]));
        let k = choose|k: int| 0 <= k < all.len() && all[k] == units[units.len() - 1];
        assert(actions::alike(
            shed_plan(fewer, a, mono, cfg).1,
            shed_plan(fewer, b, mono, cfg).1,
            all[k].0,
        ));
    }
}

/// Says which units would be stopped if units might be.
fn find_would_stop(cfg: &Config, budget: &Budget, ev: &Evaluation, mono: u64) -> (units: Vec<String>)
    ensures
        text::texts(units@) == stopped_units(
            shed_plan(metrics::activity(ev.unit_active@), budget@, mono, live(*cfg)).0,
        ),
{
    let ghost all = metrics::activity(ev.unit_active@);
    let mut trial = budget.copy_for(&ev.unit_active);
    let ghost start = trial@;
    let mut units: Vec<String> = Vec::new();
    let mut i: usize = 0;
    proof {
        assert(all.take(0) == Seq::<(Seq<char>, bool)>::empty());
        assert(text::texts(units@) == stopped_units(Seq::<StepText>::empty()));
        assert forall|i: int| 0 <= i < all.len() implies actions::alike(
            start,
            budget@,
            (#[trigger] all[i]).0,
        ) by {
            assert(all[i].0 == ev.unit_active[i].0@);
        }
    }
    while i < ev.unit_active.len()
        invariant
            i <= ev.unit_active.len(),
            all == metrics::activity(ev.unit_active@),
            trial@ == shed_plan(all.take(i as int), start, mono, live(*cfg)).1,
            text::texts(units@) == stopped_units(
                shed_plan(all.take(i as int), start, mono, live(*cfg)).0,
            ),
        decreases ev.unit_active.len() - i,
    {
        let ghost planned = shed_plan(all.take(i as int), start, mono, live(*cfg)).0;
        proof {
            assert(all.take(i + 1).drop_last() == all.take(i as int));
            assert(all.take(i + 1).last() == (
                ev.unit_active@[i as int].0@,
                ev.unit_active@[i as int].1,
            ));
        }
        if ev.unit_active[i].1 {
            let unit = &ev.unit_active[i].0;
            if trial.try_admit(unit.as_str(), mono, &cfg.actions, false) == Decision::Shed {
                let ghost before = text::texts(units@);
                units.push(unit.clone());
                proof {
                    assert(text::texts(units@) == before.push(unit@));
                    assert(stopped_units(planned.push(StepText::Stop(unit@))) == stopped_units(
                        planned,
                    ).push(unit@));
                }
            }
        }
        i += 1;
    }
    proof {
        assert(all.take(i as int) == all);
        assert forall|i: int| 0 <= i < all.len() implies all.contains(#[trigger] all[i]) by {}
        lemma_alike_plans(all, all, start, budget@, mono, live(*cfg));
    }
    units
}

/// Says what to do about a gated memory emergency.
///
/// One record when the emergency starts, and one per action actually taken. A
/// suppression is the steady state during a sustained emergency, so recording
/// those would fill /var/log precisely when the host is already in trouble. In
/// observe-only mode the record of the start names the units that would have
/// been stopped.
pub fn handle_emergency(
    cfg: &Config,
    budget: &mut Budget,
    ev: &Evaluation,
    emergency: Gated,
    now: u64,
    mono: u64,
) -> (steps: Vec<Step>)
    ensures
        step_texts(steps@) == emergency_plan(*cfg, old(budget)@, *ev, emergency, now, mono).0,
        final(budget)@ == emergency_plan(*cfg, old(budget)@, *ev, emergency, now, mono).1,
{
    let mut steps: Vec<Step> = Vec::new();
    assert(step_texts(steps@) == Seq::<StepText>::empty());
    if !emergency.active() {
        return steps;
    }
    let ghost record = onset(*cfg, budget@, *ev, now, mono);
    if emergency == Gated::Newly {
        let would_stop = if cfg.observe_only {
            Some(find_would_stop(cfg, budget, ev, mono))
        } else {
            None
        };
        let step = Step::Record {
            event: "memory-emergency".to_owned(),
            incident: Incident::EmergencyBegan {
                available_bytes: ev.pressure.available_bytes,
                full_psi_percent: ev.percent_json.clone(),
                would_stop,
                timestamp: now,
            },
        };
        proof {
            lemma_step_push(steps@, step);
            assert(step@ == record);
        }
        steps.push(step);
    }
    let ghost first = step_texts(steps@);
    let ghost units = metrics::activity(ev.unit_active@);
    let mut i: usize = 0;
    proof {
        assert(units.take(0) == Seq::<(Seq<char>, bool)>::empty());
        assert(first + Seq::<StepText>::empty() == first);
        assert(emergency == Gated::Newly ==> first == seq![record]);
    }
    while i < ev.unit_active.len()
        invariant
            i <= ev.unit_active.len(),
            units == metrics::activity(ev.unit_active@),
            step_texts(steps@) == first + shed_plan(
                units.take(i as int),
                old(budget)@,
                mono,
                *cfg,
            ).0,
            budget@ == shed_plan(units.take(i as int), old(budget)@, mono, *cfg).1,
        decreases ev.unit_active.len() - i,
    {
        proof {
            assert(units.take(i + 1).drop_last() == units.take(i as int));
            assert(units.take(i + 1).last() == (
                ev.unit_active@[i as int].0@,
                ev.unit_active@[i as int].1,
            ));
        }
        if ev.unit_active[i].1 {
            let unit = &ev.unit_active[i].0;
            if budget.try_admit(unit.as_str(), mono, &cfg.actions, cfg.observe_only)
                == Decision::Shed {
                let step = Step::Stop { unit: unit.clone() };
                proof {
                    let stops = shed_plan(units.take(i as int), old(budget)@, mono, *cfg).0;
                    lemma_step_push(steps@, step);
                    assert((first + stops).push(step@) == first + stops.push(step@));
                }
                steps.push(step);
            }
        }
        i += 1;
    }
    assert(units.take(i as int) == units);
    steps
}

/// The name and the incident under which the stop of a unit is recorded, once it is known how
/// the stop went.
///
/// The unit is part of the name: two units shed within one wall second would
/// otherwise rename onto the same path, leaving a record that names only the
/// last.
pub fn shed_record(
    unit: &str,
    outcome: Result<(), String>,
    ev: &Evaluation,
    now: u64,
) -> (out: (String, Incident))
    ensures
        out.0@ == "memory-emergency-"@ + unit@,
        incident::fields(out.1) == incident::shed_fields(
            unit@,
            match outcome {
                Ok(_) => "shed"@,
                Err(why) => "failed: "@ + why@,
            },
            ev.pressure.available_bytes,
            ev.percent_json@,
            now,
        ),
{
    let result = match outcome {
        Ok(_) => "shed".to_owned(),
        Err(why) => located("failed: ", why.as_str()),
    };
    (
        located("memory-emergency-", unit),
        Incident::EmergencyShed {
            unit: unit.to_owned(),
            result,
            available_bytes: ev.pressure.available_bytes,
            full_psi_percent: ev.percent_json.clone(),
            timestamp: now,
        },
    )
}

/// `Dry` is what `--once` runs: evaluate and report, touch nothing. The manual
/// and `--help` both promise that, and an operator sanity-checking a config as
/// root on a live host is exactly who would be harmed by it not being true.
#[derive(Debug, Clone, Copy, PartialEq, Eq, Structural)]
pub enum Mode {
    Dry,
    Live,
}

/// The condition that something else than expected is mounted at `path`.
pub open spec fn mount_key(path: Seq<char>) -> Seq<char> {
    "mount:"@ + path
}

/// The step that records what was found at `path`.
pub open spec fn mount_record(path: Seq<char>, found: Finding, now: u64) -> StepText {
    StepText::Record(
        mount_key(path),
        incident::mount_fields(path, incident::finding_text(found), now),
    )
}

/// Which findings are recorded, in order, when each is gated in turn, and the counters
/// then. Only a finding that newly counts is recorded: one left unresolved overnight
/// would otherwise write one file per poll.
pub open spec fn mount_plan(
    found: Seq<(Seq<char>, Finding)>,
    counters: Map<Seq<char>, u32>,
    required: u32,
    now: u64,
) -> (Seq<StepText>, Map<Seq<char>, u32>)
    decreases found.len(),
{
    if found.len() == 0 {
        (Seq::empty(), counters)
    } else {
        let (steps, before) = mount_plan(found.drop_last(), counters, required, now);
        let (path, finding) = found.last();
        let bad = finding != Finding::Expected;
        (
            if gate::answer(before, mount_key(path), bad, required) == Gated::Newly {
                steps.push(mount_record(path, finding, now))
            } else {
                steps
            },
            gate::observed(before, mount_key(path), bad),
        )
    }
}

/// Gates the findings on mounts, and says which of them to record.
fn gate_mounts(
    gate: &mut Gate,
    found: &Vec<(String, MountVerdict)>,
    required: u32,
    now: u64,
) -> (steps: Vec<Step>)
    ensures
        step_texts(steps@) == mount_plan(
            metrics::findings(found@),
            old(gate)@,
            required,
            now,
        ).0,
        final(gate)@ == mount_plan(metrics::findings(found@), old(gate)@, required, now).1,
{
    let mut steps: Vec<Step> = Vec::new();
    let ghost model = metrics::findings(found@);
    let mut i: usize = 0;
    proof {
        assert(model.take(0) == Seq::<(Seq<char>, Finding)>::empty());
        assert(step_texts(steps@) == Seq::<StepText>::empty());
    }
    while i < found.len()
        invariant
            i <= found.len(),
            model == metrics::findings(found@),
            step_texts(steps@) == mount_plan(model.take(i as int), old(gate)@, required, now).0,
            gate@ == mount_plan(model.take(i as int), old(gate)@, required, now).1,
        decreases found.len() - i,
    {
        proof {
            assert(model.take(i + 1).drop_last() == model.take(i as int));
            assert(model.take(i + 1).last() == (found@[i as int].0@, found@[i as int].1@));
        }
        let path = &found[i].0;
        let key = located("mount:", path.as_str());
        let bad = match &found[i].1 {
            MountVerdict::Verified => false,
            _ => true,
        };
        if gate.observe(key.as_str(), bad, required) == Gated::Newly {
            let step = Step::Record {
                event: key,
                incident: Incident::MountIdentity {
                    path: path.clone(),
                    verdict: incident::describe_verdict(&found[i].1),
                    timestamp: now,
                },
            };
            proof {
                lemma_step_push(steps@, step);
                assert(step@ == mount_record(path@, found@[i as int].1@, now));
            }
            steps.push(step);
        }
        i += 1;
    }
    assert(model.take(i as int) == model);
    steps
}

/// What one run comes to: what is to be done, in order, and the metrics to publish.
pub struct Run {
    pub steps: Vec<Step>,
    pub metrics: String,
}

/// The key of the memory emergency.
pub open spec fn emergency_key() -> Seq<char> {
    "memory_emergency"@
}

/// What gating makes of the memory pressure.
pub open spec fn gated_emergency(cfg: Config, counters: Map<Seq<char>, u32>, ev: Evaluation) -> Gated {
    gate::answer(
        counters,
        emergency_key(),
        pressure::emergency(ev.pressure, cfg.memory),
        cfg.consecutive_samples,
    )
}

/// What the mounts come to, once the memory pressure has been gated.
pub open spec fn gated_mounts(
    cfg: Config,
    counters: Map<Seq<char>, u32>,
    ev: Evaluation,
    now: u64,
) -> (Seq<StepText>, Map<Seq<char>, u32>) {
    mount_plan(
        metrics::findings(ev.mounts@),
        gate::observed(
            counters,
            emergency_key(),
            pressure::emergency(ev.pressure, cfg.memory),
        ),
        cfg.consecutive_samples,
        now,
    )
}

/// What one run is to do, and what the budget remembers then. A dry run does nothing.
pub open spec fn run_plan(
    cfg: Config,
    counters: Map<Seq<char>, u32>,
    memory: Memory,
    ev: Evaluation,
    now: u64,
    mono: u64,
    mode: Mode,
) -> (Seq<StepText>, Memory) {
    if mode == Mode::Dry {
        (Seq::empty(), memory)
    } else {
        let (steps, after) = emergency_plan(
            cfg,
            memory,
            ev,
            gated_emergency(cfg, counters, ev),
            now,
            mono,
        );
        (gated_mounts(cfg, counters, ev, now).0 + steps, after)
    }
}

/// What one run publishes.
pub open spec fn published(
    cfg: Config,
    counters: Map<Seq<char>, u32>,
    after: Memory,
    ev: Evaluation,
    now: u64,
) -> metrics::Published {
    metrics::Published {
        up: ev.errors@.len() == 0,
        observe_only: cfg.observe_only,
        timestamp: now,
        errors: ev.errors@.len(),
        available_bytes: ev.pressure.available_bytes,
        full_psi_percent: ev.percent_fixed@,
        emergency_active: gated_emergency(cfg, counters, ev) != Gated::No,
        actions_in_window: after.history.len(),
        mounts: metrics::findings(ev.mounts@),
        unit_active: metrics::activity(ev.unit_active@),
    }
}

/// Runs one evaluation past a gate and a budget.
///
/// `now` is the time of day that records carry; `mono` is a clock that does not
/// jump, so that neither cooldown nor budget is widened by an NTP step.
pub fn run_once(
    cfg: &Config,
    gate: &mut Gate,
    budget: &mut Budget,
    ev: &Evaluation,
    now: u64,
    mono: u64,
    mode: Mode,
) -> (run: Run)
    ensures
        ({
            let (steps, after) = run_plan(*cfg, old(gate)@, old(budget)@, *ev, now, mono, mode);
            &&& step_texts(run.steps@) == steps
            &&& final(budget)@ == after
            &&& final(gate)@ == gated_mounts(*cfg, old(gate)@, *ev, now).1
            &&& run.metrics@ == metrics::ended(
                metrics::exposition(published(*cfg, old(gate)@, after, *ev, now)),
            )
        }),
{
    let raw = pressure::is_emergency(ev.pressure, cfg.memory);
    let emergency = gate.observe("memory_emergency", raw, cfg.consecutive_samples);
    let mut steps = gate_mounts(gate, &ev.mounts, cfg.consecutive_samples, now);
    if mode == Mode::Live {
        let mut more = handle_emergency(cfg, budget, ev, emergency, now, mono);
        let ghost first = steps@;
        let ghost second = more@;
        steps.append(&mut more);
        assert(step_texts(first + second) == step_texts(first) + step_texts(second));
    } else {
        steps = Vec::new();
        assert(step_texts(steps@) == Seq::<StepText>::empty());
    }
    let snapshot = Snapshot {
        up: ev.errors.len() == 0,
        observe_only: cfg.observe_only,
        timestamp: now,
        errors: ev.errors.len(),
        available_bytes: ev.pressure.available_bytes,
        full_psi_percent: ev.percent_fixed.as_str(),
        emergency_active: emergency.active(),
        actions_in_window: budget.actions_in_window(),
        mounts: ev.mounts.as_slice(),
        unit_active: ev.unit_active.as_slice(),
    };
    Run { steps, metrics: metrics::render(&snapshot) }
}

} // verus!
