//! Laws of what a run records of mounts: what was found there, all of it, and when it counts.

use crate::actions::{Budget, Memory};
use crate::config::Config;
use crate::evaluation_laws;
use crate::gate;
use crate::gate::{Gate, Gated};
use crate::guardian;
use crate::guardian::{Evaluation, Mode, Run, Step};
use crate::guardian_laws;
use crate::incident;
use crate::incident::{FieldText, Incident};
use crate::metrics;
use crate::mounts::{Finding, MountVerdict};
use crate::pressure;
use crate::text;
use vstd::prelude::*;

verus! {

/// The text of a verdict, with all that was found.
pub open spec fn verdict_told(verdict: MountVerdict) -> Seq<char> {
    match verdict {
        MountVerdict::Verified => "Ok"@,
        MountVerdict::Missing => "Missing"@,
        MountVerdict::Mismatch { actual } => "Mismatch { actual: MountIdentity { source: "@
            + text::debug_text(actual.source@) + ", fstype: "@ + text::debug_text(actual.fstype@)
            + ", root: "@ + text::debug_text(actual.root@) + " } }"@,
    }
}

/// Whether `step` records `verdict` on the mount at `path`.
pub open spec fn records_verdict(
    step: Step,
    path: Seq<char>,
    verdict: MountVerdict,
    now: u64,
) -> bool {
    &&& step matches Step::Record {
        event,
        incident: Incident::MountIdentity { path: at, verdict: told, timestamp },
    }
    &&& event@ == "mount:"@ + path
    &&& at@ == path
    &&& told@ == verdict_told(verdict)
    &&& timestamp == now
}

/// Every record of mounts is of one that was found to be bad.
proof fn lemma_records(
    found: Seq<(Seq<char>, Finding)>,
    counters: Map<Seq<char>, u32>,
    required: u32,
    now: u64,
    k: int,
)
    requires
        0 <= k < guardian::mount_plan(found, counters, required, now).0.len(),
    ensures
        exists|i: int|
            0 <= i < found.len() && (#[trigger] found[i]).1 != Finding::Expected
                && evaluation_laws::records_finding(
                guardian::mount_plan(found, counters, required, now).0[k],
                found[i].0,
                found[i].1,
                now,
            ),
    decreases found.len(),
{
    let earlier = found.drop_last();
    let steps = guardian::mount_plan(earlier, counters, required, now).0;
    let (path, finding) = found.last();
    assert(found == earlier.push((path, finding)));
    evaluation_laws::a_bad_mount_is_recorded_with_what_was_found(
        earlier,
        path,
        finding,
        counters,
        required,
        now,
    );
    let all = guardian::mount_plan(found, counters, required, now).0;
    if k < steps.len() {
        lemma_records(earlier, counters, required, now, k);
        let i = choose|i: int|
            0 <= i < earlier.len() && (#[trigger] earlier[i]).1 != Finding::Expected
                && evaluation_laws::records_finding(steps[k], earlier[i].0, earlier[i].1, now);
        assert(found[i] == earlier[i]);
        assert(all[k] == steps[k]);
    } else {
        assert(found[found.len() - 1] == (path, finding));
    }
}

/// A step that asks to record a finding holds the verdict that stands for it.
proof fn lemma_step(step: Step, path: Seq<char>, verdict: MountVerdict, now: u64)
    requires
        evaluation_laws::records_finding(step@, path, verdict@, now),
    ensures
        records_verdict(step, path, verdict, now),
{
    reveal_strlit("mount_identity");
    reveal_strlit("memory_emergency_began");
    assert(step is Record);
    let incident = step->Record_incident;
    let told = incident::fields(incident);
    assert(told[0].1 == FieldText::Text("mount_identity"@));
    assert("mount_identity"@.len() == 14);
    assert("memory_emergency_began"@.len() == 22);
    assert(told.len() == 4);
    if incident is EmergencyBegan {
        assert(told[0].1 == FieldText::Text("memory_emergency_began"@));
    }
    assert(incident is MountIdentity);
    assert(told[1].1 == FieldText::Text(path));
    assert(told[2].1 == FieldText::Text(evaluation_laws::finding_told(verdict@)));
    assert(told[3].1 == FieldText::Number(now));
}

/// What a run records of a mount is what was found there: each such record is of a mount that the
/// evaluation found to be missing or replaced, and holds its path, the time of the run, and the
/// verdict on it, which for one that was replaced names the source, type and root of what is
/// mounted. A dry run records nothing.
pub proof fn a_record_of_a_mount_tells_what_was_found(
    cfg: &Config,
    gate: &mut Gate,
    budget: &mut Budget,
    ev: &Evaluation,
    now: u64,
    mono: u64,
    mode: Mode,
    run: Run,
    k: int,
)
    requires
        call_ensures(guardian::run_once, (cfg, gate, budget, ev, now, mono, mode), run),
        0 <= k < run.steps@.len(),
        run.steps@[k] is Record,
        run.steps@[k]->Record_incident is MountIdentity,
    ensures
        mode == Mode::Live,
        exists|i: int|
            0 <= i < ev.mounts@.len() && !((#[trigger] ev.mounts@[i]).1 is Verified)
                && records_verdict(run.steps@[k], ev.mounts@[i].0@, ev.mounts@[i].1, now),
{
    let counters = gate@;
    let all = guardian::step_texts(run.steps@);
    let gated = guardian::gated_emergency(*cfg, counters, *ev);
    let found = metrics::findings(ev.mounts@);
    let between = gate::observed(
        counters,
        guardian::emergency_key(),
        pressure::emergency(ev.pressure, cfg.memory),
    );
    let records = guardian::mount_plan(found, between, cfg.consecutive_samples, now).0;
    let planned = guardian::emergency_plan(*cfg, budget@, *ev, gated, now, mono).0;
    let n = records.len() as int;
    evaluation_laws::steps_ask_one_by_one(run.steps@, k);
    assert(all[k] == run.steps@[k]@);
    assert(all == records + planned);
    if k >= n {
        assert(all[k] == planned[k - n]);
        lemma_no_mount_in_an_emergency(*cfg, budget@, *ev, gated, now, mono, k - n);
        lemma_kind(run.steps@[k]);
    }
    assert(all[k] == records[k]);
    lemma_records(found, between, cfg.consecutive_samples, now, k);
    let i = choose|i: int|
        0 <= i < found.len() && (#[trigger] found[i]).1 != Finding::Expected
            && evaluation_laws::records_finding(records[k], found[i].0, found[i].1, now);
    assert(found[i] == (ev.mounts@[i].0@, ev.mounts@[i].1@));
    lemma_step(run.steps@[k], ev.mounts@[i].0@, ev.mounts@[i].1, now);
    assert(!(ev.mounts@[i].1 is Verified));
}

/// The first field of a record of a mount tells its kind.
proof fn lemma_kind(step: Step)
    requires
        step is Record,
        step->Record_incident is MountIdentity,
    ensures
        step@->Record_1[0].1 == FieldText::Text("mount_identity"@),
        step@->Record_1.len() == 4,
{
}

/// Nothing that is done about an emergency records a mount.
proof fn lemma_no_mount_in_an_emergency(
    cfg: Config,
    memory: Memory,
    ev: Evaluation,
    gated: Gated,
    now: u64,
    mono: u64,
    k: int,
)
    requires
        0 <= k < guardian::emergency_plan(cfg, memory, ev, gated, now, mono).0.len(),
    ensures
        ({
            let step = guardian::emergency_plan(cfg, memory, ev, gated, now, mono).0[k];
            step is Record ==> step->Record_1[0].1 != FieldText::Text("mount_identity"@)
        }),
{
    reveal_strlit("mount_identity");
    reveal_strlit("memory_emergency_began");
    assert("mount_identity"@.len() == 14);
    assert("memory_emergency_began"@.len() == 22);
    let units = metrics::activity(ev.unit_active@);
    let stops = guardian::shed_plan(units, memory, mono, cfg).0;
    let all = guardian::emergency_plan(cfg, memory, ev, gated, now, mono).0;
    let offset: int = if gated == Gated::Newly {
        1
    } else {
        0
    };
    if k >= offset {
        assert(all[k] == stops[k - offset]);
        guardian_laws::lemma_planned_stops(units, memory, mono, cfg, k - offset);
    } else {
        assert(all[k] == guardian::onset(cfg, memory, ev, now, mono));
        assert(all[k]->Record_1[0].1 == FieldText::Text("memory_emergency_began"@));
    }
}

/// A bad mount is recorded when it is due: where the evaluation judges a path once, finds it
/// missing or replaced, and has now done so for the `consecutive_samples`th time by the counter
/// of that path, a live run holds the record of that verdict.
pub proof fn a_bad_mount_is_recorded_when_it_is_due(
    cfg: &Config,
    gate: &mut Gate,
    budget: &mut Budget,
    ev: &Evaluation,
    now: u64,
    mono: u64,
    run: Run,
    i: int,
)
    requires
        call_ensures(guardian::run_once, (cfg, gate, budget, ev, now, mono, Mode::Live), run),
        0 <= i < ev.mounts@.len(),
        !(ev.mounts@[i].1 is Verified),
        forall|j: int|
            0 <= j < ev.mounts@.len() && j != i ==> (#[trigger] ev.mounts@[j]).0@
                != ev.mounts@[i].0@,
        evaluation_laws::once_more(old(gate)@, "mount:"@ + ev.mounts@[i].0@)
            == cfg.consecutive_samples,
    ensures
        exists|k: int|
            0 <= k < run.steps@.len() && records_verdict(
                #[trigger] run.steps@[k],
                ev.mounts@[i].0@,
                ev.mounts@[i].1,
                now,
            ),
{
    let counters = gate@;
    let path = ev.mounts@[i].0@;
    let found = metrics::findings(ev.mounts@);
    let between = gate::observed(
        counters,
        guardian::emergency_key(),
        pressure::emergency(ev.pressure, cfg.memory),
    );
    let records = guardian::mount_plan(found, between, cfg.consecutive_samples, now).0;
    let all = guardian::step_texts(run.steps@);
    assert(found[i] == (path, ev.mounts@[i].1@));
    assert forall|k: int| 0 <= k < found.len() implies ((#[trigger] found[k]).0 == path <==> k
        == i) by {
        assert(found[k].0 == ev.mounts@[k].0@);
    }
    guardian_laws::lemma_keys_differ(path);
    guardian_laws::lemma_one_path(found, between, cfg.consecutive_samples, now, path, i);
    let record = guardian::mount_record(path, found[i].1, now);
    assert(records.contains(record));
    let k = choose|k: int| 0 <= k < records.len() && records[k] == record;
    assert(all.len() == run.steps@.len());
    assert(all[k] == records[k]);
    evaluation_laws::steps_ask_one_by_one(run.steps@, k);
    assert(all[k] == run.steps@[k]@);
    assert(evaluation_laws::records_finding(record, path, found[i].1, now));
    lemma_step(run.steps@[k], path, ev.mounts@[i].1, now);
}

} // verus!
