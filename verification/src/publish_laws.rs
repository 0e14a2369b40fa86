//! Laws of publication: what a reader of the metrics file learns is what was read from the host.

use crate::actions::Budget;
use crate::config::Config;
use crate::gate::{Gate, Gated};
use crate::guardian;
use crate::guardian::{Evaluation, Mode, Run};
use crate::metric_laws;
use crate::metrics;
use crate::metrics::{Published, Snapshot};
use crate::mounts::{Finding, MountVerdict};
use crate::text;
use vstd::prelude::*;

verus! {

/// What a file tells of one evaluation. Texts and counts are those of the evaluation itself.
pub struct Told {
    pub up: bool,
    pub observe_only: bool,
    pub timestamp: u64,
    pub errors: nat,
    pub available_bytes: u64,
    pub full_psi_percent: Seq<char>,
    pub emergency: bool,
    pub actions: nat,
    /// The path of each mount, whether it is as expected, and whether anything is mounted there.
    pub mounts: Seq<(Seq<char>, bool, bool)>,
    /// The name of each unit, and whether it is active.
    pub units: Seq<(Seq<char>, bool)>,
}

/// The digit that stands for a flag.
pub open spec fn digit(b: bool) -> Seq<char> {
    if b {
        seq!['1']
    } else {
        seq!['0']
    }
}

/// Whether these lines tell that, each metric behind the comment that declares it, and nothing
/// else.
pub open spec fn lines_tell(all: Seq<Seq<char>>, told: Told) -> bool {
    let m = told.mounts.len() as int;
    let u = told.units.len() as int;
    &&& all.len() == 21 + 2 * m + u
    &&& all[0]
        == "# HELP host_guardian_up Whether the last evaluation completed without errors."@
    &&& all[1] == "# TYPE host_guardian_up gauge"@
    &&& all[2] == "host_guardian_up "@ + digit(told.up)
    &&& all[3] == "# TYPE host_guardian_observe_only gauge"@
    &&& all[4] == "host_guardian_observe_only "@ + digit(told.observe_only)
    &&& all[5] == "# TYPE host_guardian_last_run_timestamp_seconds gauge"@
    &&& all[6] == "host_guardian_last_run_timestamp_seconds "@ + text::decimal(
        told.timestamp as nat,
    )
    &&& all[7] == "# TYPE host_guardian_errors gauge"@
    &&& all[8] == "host_guardian_errors "@ + text::decimal(told.errors)
    &&& all[9] == "# TYPE host_guardian_memory_available_bytes gauge"@
    &&& all[10] == "host_guardian_memory_available_bytes "@ + text::decimal(
        told.available_bytes as nat,
    )
    &&& all[11] == "# TYPE host_guardian_memory_full_psi_percent gauge"@
    &&& all[12] == "host_guardian_memory_full_psi_percent "@ + told.full_psi_percent
    &&& all[13] == "# TYPE host_guardian_memory_emergency gauge"@
    &&& all[14] == "host_guardian_memory_emergency "@ + digit(told.emergency)
    &&& all[15] == "# TYPE host_guardian_actions_in_window gauge"@
    &&& all[16] == "host_guardian_actions_in_window "@ + text::decimal(told.actions)
    &&& all[17]
        == "# HELP host_guardian_mount_ok Whether a mount matches its expected identity."@
    &&& all[18] == "# TYPE host_guardian_mount_ok gauge"@
    &&& all[19 + m] == "# TYPE host_guardian_mount_present gauge"@
    &&& all[20 + 2 * m] == "# TYPE host_guardian_unit_active gauge"@
    &&& forall|i: int|
        0 <= i < m ==> #[trigger] item_told(
            all[19 + i],
            "host_guardian_mount_ok{path=\""@,
            told.mounts[i].0,
            told.mounts[i].1,
        )
    &&& forall|i: int|
        0 <= i < m ==> #[trigger] item_told(
            all[20 + m + i],
            "host_guardian_mount_present{path=\""@,
            told.mounts[i].0,
            told.mounts[i].2,
        )
    &&& forall|i: int|
        0 <= i < u ==> #[trigger] item_told(
            all[21 + 2 * m + i],
            "host_guardian_unit_active{unit=\""@,
            told.units[i].0,
            told.units[i].1,
        )
}

/// Whether `line` tells of `item` whether it is so: behind `front`, a reader of the label finds
/// the item, and behind the label its digit.
pub open spec fn item_told(line: Seq<char>, front: Seq<char>, item: Seq<char>, so: bool) -> bool {
    exists|rest: Seq<char>|
        {
            &&& line == #[trigger] (front + rest)
            &&& metric_laws::read_label(rest) == Some((item, seq!['}', ' '] + digit(so)))
        }
}

/// A line for one item is read back as it was written.
proof fn lemma_item(name: Seq<char>, label: Seq<char>, front: Seq<char>, item: Seq<char>, so: bool)
    requires
        front == name + seq!['{'] + label + seq!['=', '"'],
    ensures
        item_told(
            metrics::sample_line(metrics::labelled(name, label, item), text::flag(so)),
            front,
            item,
            so,
        ),
{
    reveal_strlit("{");
    reveal_strlit("=\"");
    reveal_strlit("\"}");
    reveal_strlit(" ");
    let end = seq!['}', ' '] + digit(so);
    let rest = metrics::label_text(item) + seq!['"'] + end;
    let line = metrics::sample_line(metrics::labelled(name, label, item), text::flag(so));
    metric_laws::label_reads_back(item, end);
    assert(text::flag(so) == digit(so));
    assert("{"@ == seq!['{'] && "=\""@ == seq!['=', '"'] && "\"}"@ == seq!['"', '}'] && " "@
        == seq![' ']);
    assert(line == front + rest);
}

/// The texts that metric lines are made of, put together.
proof fn lemma_literals()
    ensures
        "# HELP "@ + "host_guardian_up"@ + " "@
            + "Whether the last evaluation completed without errors."@
            == "# HELP host_guardian_up Whether the last evaluation completed without errors."@,
        "# HELP "@ + "host_guardian_mount_ok"@ + " "@
            + "Whether a mount matches its expected identity."@
            == "# HELP host_guardian_mount_ok Whether a mount matches its expected identity."@,
        "host_guardian_mount_ok"@ + seq!['{'] + "path"@ + seq!['=', '"']
            == "host_guardian_mount_ok{path=\""@,
        "host_guardian_mount_present"@ + seq!['{'] + "path"@ + seq!['=', '"']
            == "host_guardian_mount_present{path=\""@,
        "host_guardian_unit_active"@ + seq!['{'] + "unit"@ + seq!['=', '"']
            == "host_guardian_unit_active{unit=\""@,
{
    reveal_strlit("# HELP ");
    reveal_strlit(" ");
    reveal_strlit("host_guardian_up");
    reveal_strlit("host_guardian_mount_ok");
    reveal_strlit("host_guardian_mount_present");
    reveal_strlit("host_guardian_unit_active");
    reveal_strlit("path");
    reveal_strlit("unit");
    reveal_strlit("Whether the last evaluation completed without errors.");
    reveal_strlit("Whether a mount matches its expected identity.");
    reveal_strlit("# HELP host_guardian_up Whether the last evaluation completed without errors.");
    reveal_strlit("# HELP host_guardian_mount_ok Whether a mount matches its expected identity.");
    reveal_strlit("host_guardian_mount_ok{path=\"");
    reveal_strlit("host_guardian_mount_present{path=\"");
    reveal_strlit("host_guardian_unit_active{unit=\"");
    assert("# HELP "@ + "host_guardian_up"@ + " "@
        + "Whether the last evaluation completed without errors."@
        == "# HELP host_guardian_up Whether the last evaluation completed without errors."@);
    assert("# HELP "@ + "host_guardian_mount_ok"@ + " "@
        + "Whether a mount matches its expected identity."@
        == "# HELP host_guardian_mount_ok Whether a mount matches its expected identity."@);
    assert("host_guardian_mount_ok"@ + seq!['{'] + "path"@ + seq!['=', '"']
        == "host_guardian_mount_ok{path=\""@);
    assert("host_guardian_mount_present"@ + seq!['{'] + "path"@ + seq!['=', '"']
        == "host_guardian_mount_present{path=\""@);
    assert("host_guardian_unit_active"@ + seq!['{'] + "unit"@ + seq!['=', '"']
        == "host_guardian_unit_active{unit=\""@);
}

/// The declaration and the start of the value of each metric.
proof fn lemma_names()
    ensures
        "# TYPE "@ + "host_guardian_up"@ + " gauge"@ == "# TYPE host_guardian_up gauge"@,
        "host_guardian_up"@ + " "@ == "host_guardian_up "@,
        "# TYPE "@ + "host_guardian_observe_only"@ + " gauge"@
            == "# TYPE host_guardian_observe_only gauge"@,
        "host_guardian_observe_only"@ + " "@ == "host_guardian_observe_only "@,
        "# TYPE "@ + "host_guardian_last_run_timestamp_seconds"@ + " gauge"@
            == "# TYPE host_guardian_last_run_timestamp_seconds gauge"@,
        "host_guardian_last_run_timestamp_seconds"@ + " "@
            == "host_guardian_last_run_timestamp_seconds "@,
        "# TYPE "@ + "host_guardian_errors"@ + " gauge"@ == "# TYPE host_guardian_errors gauge"@,
        "host_guardian_errors"@ + " "@ == "host_guardian_errors "@,
{
    reveal_strlit("# TYPE ");
    reveal_strlit(" gauge");
    reveal_strlit(" ");
    reveal_strlit("host_guardian_up");
    reveal_strlit("# TYPE host_guardian_up gauge");
    reveal_strlit("host_guardian_up ");
    reveal_strlit("host_guardian_observe_only");
    reveal_strlit("# TYPE host_guardian_observe_only gauge");
    reveal_strlit("host_guardian_observe_only ");
    reveal_strlit("host_guardian_last_run_timestamp_seconds");
    reveal_strlit("# TYPE host_guardian_last_run_timestamp_seconds gauge");
    reveal_strlit("host_guardian_last_run_timestamp_seconds ");
    reveal_strlit("host_guardian_errors");
    reveal_strlit("# TYPE host_guardian_errors gauge");
    reveal_strlit("host_guardian_errors ");
    assert("# TYPE "@ + "host_guardian_up"@ + " gauge"@ == "# TYPE host_guardian_up gauge"@);
    assert("host_guardian_up"@ + " "@ == "host_guardian_up "@);
    assert("# TYPE "@ + "host_guardian_observe_only"@ + " gauge"@
        == "# TYPE host_guardian_observe_only gauge"@);
    assert("host_guardian_observe_only"@ + " "@ == "host_guardian_observe_only "@);
    assert("# TYPE "@ + "host_guardian_last_run_timestamp_seconds"@ + " gauge"@
        == "# TYPE host_guardian_last_run_timestamp_seconds gauge"@);
    assert("host_guardian_last_run_timestamp_seconds"@ + " "@
        == "host_guardian_last_run_timestamp_seconds "@);
    assert("# TYPE "@ + "host_guardian_errors"@ + " gauge"@
        == "# TYPE host_guardian_errors gauge"@);
    assert("host_guardian_errors"@ + " "@ == "host_guardian_errors "@);
}

/// The declaration and the start of the value of each of the other metrics.
proof fn lemma_more_names()
    ensures
        "# TYPE "@ + "host_guardian_memory_available_bytes"@ + " gauge"@
            == "# TYPE host_guardian_memory_available_bytes gauge"@,
        "host_guardian_memory_available_bytes"@ + " "@ == "host_guardian_memory_available_bytes "@,
        "# TYPE "@ + "host_guardian_memory_full_psi_percent"@ + " gauge"@
            == "# TYPE host_guardian_memory_full_psi_percent gauge"@,
        "host_guardian_memory_full_psi_percent"@ + " "@
            == "host_guardian_memory_full_psi_percent "@,
        "# TYPE "@ + "host_guardian_memory_emergency"@ + " gauge"@
            == "# TYPE host_guardian_memory_emergency gauge"@,
        "host_guardian_memory_emergency"@ + " "@ == "host_guardian_memory_emergency "@,
        "# TYPE "@ + "host_guardian_actions_in_window"@ + " gauge"@
            == "# TYPE host_guardian_actions_in_window gauge"@,
        "host_guardian_actions_in_window"@ + " "@ == "host_guardian_actions_in_window "@,
        "# TYPE "@ + "host_guardian_mount_ok"@ + " gauge"@ == "# TYPE host_guardian_mount_ok gauge"@,
        "# TYPE "@ + "host_guardian_mount_present"@ + " gauge"@
            == "# TYPE host_guardian_mount_present gauge"@,
        "# TYPE "@ + "host_guardian_unit_active"@ + " gauge"@
            == "# TYPE host_guardian_unit_active gauge"@,
{
    reveal_strlit("# TYPE ");
    reveal_strlit(" gauge");
    reveal_strlit(" ");
    reveal_strlit("host_guardian_memory_available_bytes");
    reveal_strlit("# TYPE host_guardian_memory_available_bytes gauge");
    reveal_strlit("host_guardian_memory_available_bytes ");
    reveal_strlit("host_guardian_memory_full_psi_percent");
    reveal_strlit("# TYPE host_guardian_memory_full_psi_percent gauge");
    reveal_strlit("host_guardian_memory_full_psi_percent ");
    reveal_strlit("host_guardian_memory_emergency");
    reveal_strlit("# TYPE host_guardian_memory_emergency gauge");
    reveal_strlit("host_guardian_memory_emergency ");
    reveal_strlit("host_guardian_actions_in_window");
    reveal_strlit("# TYPE host_guardian_actions_in_window gauge");
    reveal_strlit("host_guardian_actions_in_window ");
    reveal_strlit("host_guardian_mount_ok");
    reveal_strlit("# TYPE host_guardian_mount_ok gauge");
    reveal_strlit("host_guardian_mount_present");
    reveal_strlit("# TYPE host_guardian_mount_present gauge");
    reveal_strlit("host_guardian_unit_active");
    reveal_strlit("# TYPE host_guardian_unit_active gauge");
    assert("# TYPE "@ + "host_guardian_memory_available_bytes"@ + " gauge"@
        == "# TYPE host_guardian_memory_available_bytes gauge"@);
    assert("host_guardian_memory_available_bytes"@ + " "@
        == "host_guardian_memory_available_bytes "@);
    assert("# TYPE "@ + "host_guardian_memory_full_psi_percent"@ + " gauge"@
        == "# TYPE host_guardian_memory_full_psi_percent gauge"@);
    assert("host_guardian_memory_full_psi_percent"@ + " "@
        == "host_guardian_memory_full_psi_percent "@);
    assert("# TYPE "@ + "host_guardian_memory_emergency"@ + " gauge"@
        == "# TYPE host_guardian_memory_emergency gauge"@);
    assert("host_guardian_memory_emergency"@ + " "@ == "host_guardian_memory_emergency "@);
    assert("# TYPE "@ + "host_guardian_actions_in_window"@ + " gauge"@
        == "# TYPE host_guardian_actions_in_window gauge"@);
    assert("host_guardian_actions_in_window"@ + " "@ == "host_guardian_actions_in_window "@);
    assert("# TYPE "@ + "host_guardian_mount_ok"@ + " gauge"@
        == "# TYPE host_guardian_mount_ok gauge"@);
    assert("# TYPE "@ + "host_guardian_mount_present"@ + " gauge"@
        == "# TYPE host_guardian_mount_present gauge"@);
    assert("# TYPE "@ + "host_guardian_unit_active"@ + " gauge"@
        == "# TYPE host_guardian_unit_active gauge"@);
}

/// What a snapshot publishes, as a reader is told it.
spec fn told_by(s: Published) -> Told {
    Told {
        up: s.up,
        observe_only: s.observe_only,
        timestamp: s.timestamp,
        errors: s.errors,
        available_bytes: s.available_bytes,
        full_psi_percent: s.full_psi_percent,
        emergency: s.emergency_active,
        actions: s.actions_in_window,
        mounts: Seq::new(
            s.mounts.len(),
            |i: int|
                (
                    s.mounts[i].0,
                    s.mounts[i].1 == Finding::Expected,
                    s.mounts[i].1 != Finding::Nothing,
                ),
        ),
        units: s.unit_active,
    }
}

/// The lines that are written tell what is published.
proof fn lemma_lines_tell(s: Published)
    ensures
        lines_tell(metrics::exposition(s), told_by(s)),
{
    let all = metrics::exposition(s);
    let told = told_by(s);
    let m = s.mounts.len() as int;
    let u = s.unit_active.len() as int;
    lemma_literals();
    lemma_names();
    lemma_more_names();
    assert(text::flag(true) == digit(true) && text::flag(false) == digit(false));
    let head = all.take(19);
    assert(all.len() == 21 + 2 * m + u);
    assert forall|i: int| 0 <= i < m implies #[trigger] item_told(
        all[19 + i],
        "host_guardian_mount_ok{path=\""@,
        told.mounts[i].0,
        told.mounts[i].1,
    ) by {
        lemma_item(
            "host_guardian_mount_ok"@,
            "path"@,
            "host_guardian_mount_ok{path=\""@,
            s.mounts[i].0,
            s.mounts[i].1 == Finding::Expected,
        );
        assert(all[19 + i] == metrics::mount_ok_lines(s.mounts)[i]);
    }
    assert forall|i: int| 0 <= i < m implies #[trigger] item_told(
        all[20 + m + i],
        "host_guardian_mount_present{path=\""@,
        told.mounts[i].0,
        told.mounts[i].2,
    ) by {
        lemma_item(
            "host_guardian_mount_present"@,
            "path"@,
            "host_guardian_mount_present{path=\""@,
            s.mounts[i].0,
            s.mounts[i].1 != Finding::Nothing,
        );
        assert(all[20 + m + i] == metrics::mount_present_lines(s.mounts)[i]);
    }
    assert forall|i: int| 0 <= i < u implies #[trigger] item_told(
        all[21 + 2 * m + i],
        "host_guardian_unit_active{unit=\""@,
        told.units[i].0,
        told.units[i].1,
    ) by {
        lemma_item(
            "host_guardian_unit_active"@,
            "unit"@,
            "host_guardian_unit_active{unit=\""@,
            s.unit_active[i].0,
            s.unit_active[i].1,
        );
        assert(all[21 + 2 * m + i] == metrics::unit_lines(s.unit_active)[i]);
    }
}

/// The text of lines, each ended by a line feed, grows by a line and its line feed.
pub proof fn every_line_is_ended(all: Seq<Seq<char>>, line: Seq<char>)
    ensures
        metrics::ended(Seq::<Seq<char>>::empty()) == Seq::<char>::empty(),
        metrics::ended(all.push(line)) == metrics::ended(all) + line + seq!['\n'],
{
    reveal_strlit("\n");
    assert(all.push(line).drop_last() == all);
    assert("\n"@ == seq!['\n']);
}

/// A label value is escaped as a reader of labels undoes it.
pub proof fn an_escaped_value_reads_back(value: &str, out: String, rest: Seq<char>)
    requires
        call_ensures(metrics::escape, (value,), out),
    ensures
        metric_laws::read_label(out@ + seq!['"'] + rest) == Some((value@, rest)),
{
    metric_laws::label_reads_back(value@, rest);
}

/// What a snapshot holds, its text tells: lines, each ended by a line feed, that tell its flags,
/// counts and readings, and of each mount and unit, in order, how it is. A reader of the text
/// finds those lines, if the percentage is one word.
pub proof fn a_snapshot_is_told_as_it_is(s: &Snapshot, out: String)
    requires
        call_ensures(metrics::render, (s,), out),
    ensures
        exists|all: Seq<Seq<char>>|
            {
                &&& out@ == #[trigger] metrics::ended(all)
                &&& metric_laws::one_value(s.full_psi_percent@) ==> text::lines(out@) == all
                &&& lines_tell(
                    all,
                    Told {
                        up: s.up,
                        observe_only: s.observe_only,
                        timestamp: s.timestamp,
                        errors: s.errors as nat,
                        available_bytes: s.available_bytes,
                        full_psi_percent: s.full_psi_percent@,
                        emergency: s.emergency_active,
                        actions: s.actions_in_window as nat,
                        mounts: Seq::new(
                            s.mounts@.len(),
                            |i: int|
                                (
                                    s.mounts@[i].0@,
                                    s.mounts@[i].1 is Verified,
                                    !(s.mounts@[i].1 is Missing),
                                ),
                        ),
                        units: Seq::new(
                            s.unit_active@.len(),
                            |i: int| (s.unit_active@[i].0@, s.unit_active@[i].1),
                        ),
                    },
                )
            },
{
    let p = s@;
    let all = metrics::exposition(p);
    lemma_lines_tell(p);
    lemma_mounts_told(s.mounts@);
    lemma_units_told(s.unit_active@);
    if metric_laws::one_value(s.full_psi_percent@) {
        metric_laws::published_file_is_well_formed(p);
    }
    assert(out@ == metrics::ended(all));
}

/// What is told of mounts is told by their verdicts.
proof fn lemma_mounts_told(mounts: Seq<(String, MountVerdict)>)
    ensures
        Seq::new(
            metrics::findings(mounts).len(),
            |i: int|
                (
                    metrics::findings(mounts)[i].0,
                    metrics::findings(mounts)[i].1 == Finding::Expected,
                    metrics::findings(mounts)[i].1 != Finding::Nothing,
                ),
        ) == Seq::new(
            mounts.len(),
            |i: int| (mounts[i].0@, mounts[i].1 is Verified, !(mounts[i].1 is Missing)),
        ),
{
}

/// What is told of units is told by their flags.
proof fn lemma_units_told(units: Seq<(String, bool)>)
    ensures
        metrics::activity(units) == Seq::new(units.len(), |i: int| (units[i].0@, units[i].1)),
{
}

/// What a run publishes is what it read. Its metrics tell whether the evaluation had errors and
/// how many, the time of the run, the available bytes and the percentage that were read, the
/// verdict on each mount and the activity of each unit, whether the mode is observe-only, how many
/// actions the budget remembers after the run, and as an emergency exactly one that has been read
/// often enough in a row.
pub proof fn a_run_publishes_what_it_read(
    cfg: &Config,
    gate: &mut Gate,
    budget: &mut Budget,
    ev: &Evaluation,
    now: u64,
    mono: u64,
    mode: Mode,
    run: Run,
)
    requires
        call_ensures(guardian::run_once, (cfg, gate, budget, ev, now, mono, mode), run),
    ensures
        exists|all: Seq<Seq<char>>|
            {
                &&& run.metrics@ == #[trigger] metrics::ended(all)
                &&& metric_laws::one_value(ev.percent_fixed@) ==> text::lines(run.metrics@) == all
                &&& lines_tell(
                    all,
                    Told {
                        up: ev.errors@.len() == 0,
                        observe_only: cfg.observe_only,
                        timestamp: now,
                        errors: ev.errors@.len(),
                        available_bytes: ev.pressure.available_bytes,
                        full_psi_percent: ev.percent_fixed@,
                        emergency: counts_as_emergency(*cfg, old(gate)@, *ev),
                        actions: final(budget)@.history.len(),
                        mounts: Seq::new(
                            ev.mounts@.len(),
                            |i: int|
                                (
                                    ev.mounts@[i].0@,
                                    ev.mounts@[i].1 is Verified,
                                    !(ev.mounts@[i].1 is Missing),
                                ),
                        ),
                        units: Seq::new(
                            ev.unit_active@.len(),
                            |i: int| (ev.unit_active@[i].0@, ev.unit_active@[i].1),
                        ),
                    },
                )
            },
{
    let (steps, after) = guardian::run_plan(*cfg, gate@, budget@, *ev, now, mono, mode);
    let p = guardian::published(*cfg, gate@, after, *ev, now);
    let all = metrics::exposition(p);
    lemma_lines_tell(p);
    lemma_mounts_told(ev.mounts@);
    lemma_units_told(ev.unit_active@);
    if metric_laws::one_value(ev.percent_fixed@) {
        metric_laws::published_file_is_well_formed(p);
    }
    lemma_counts(*cfg, gate@, *ev);
    assert(run.metrics@ == metrics::ended(all));
}

/// Whether memory is below its threshold and stalled time at or above its own, and that for the
/// `consecutive_samples`th time in a row at least, by the counter of the condition.
pub open spec fn counts_as_emergency(
    cfg: Config,
    counters: Map<Seq<char>, u32>,
    ev: Evaluation,
) -> bool {
    let seen: int = if counters.contains_key("memory_emergency"@) {
        counters["memory_emergency"@] as int
    } else {
        0
    };
    &&& ev.pressure.available_bytes < cfg.memory.available_bytes
    &&& !ev.pressure.full_avg10_percent.nan()
    &&& !cfg.memory.full_psi_percent.nan()
    &&& ev.pressure.full_avg10_percent.units() >= cfg.memory.full_psi_percent.units()
    &&& seen + 1 >= cfg.consecutive_samples || seen == 4294967295
}

/// The emergency that counts is the one that is gated.
pub(crate) proof fn lemma_counts(cfg: Config, counters: Map<Seq<char>, u32>, ev: Evaluation)
    ensures
        guardian::gated_emergency(cfg, counters, ev) != Gated::No <==> counts_as_emergency(
            cfg,
            counters,
            ev,
        ),
{
}

} // verus!
