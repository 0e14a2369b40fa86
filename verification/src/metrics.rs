//! Prometheus textfile output.
//!
//! This is the only publication channel: node-exporter's textfile collector
//! picks the file up, so host-guardian never listens on a socket and needs no
//! scrape target of its own.

use crate::mounts::{Finding, MountVerdict};
use crate::text;
use vstd::prelude::*;

verus! {

/// What one evaluation publishes. The stalled share of time is given as its text with six
/// decimals.
pub struct Snapshot<'a> {
    pub up: bool,
    pub observe_only: bool,
    pub timestamp: u64,
    pub errors: usize,
    pub available_bytes: u64,
    pub full_psi_percent: &'a str,
    pub emergency_active: bool,
    pub actions_in_window: usize,
    pub mounts: &'a [(String, MountVerdict)],
    pub unit_active: &'a [(String, bool)],
}

/// What a [`Snapshot`] tells.
pub struct Published {
    pub up: bool,
    pub observe_only: bool,
    pub timestamp: u64,
    pub errors: nat,
    pub available_bytes: u64,
    pub full_psi_percent: Seq<char>,
    pub emergency_active: bool,
    pub actions_in_window: nat,
    pub mounts: Seq<(Seq<char>, Finding)>,
    pub unit_active: Seq<(Seq<char>, bool)>,
}

/// The paths and findings of verified mounts.
pub open spec fn findings(mounts: Seq<(String, MountVerdict)>) -> Seq<(Seq<char>, Finding)> {
    mounts.map_values(|m: (String, MountVerdict)| (m.0@, m.1@))
}

/// The names of units, and whether they are active.
pub open spec fn activity(units: Seq<(String, bool)>) -> Seq<(Seq<char>, bool)> {
    units.map_values(|u: (String, bool)| (u.0@, u.1))
}

impl<'a> View for Snapshot<'a> {
    type V = Published;

    open spec fn view(&self) -> Published {
        Published {
            up: self.up,
            observe_only: self.observe_only,
            timestamp: self.timestamp,
            errors: self.errors as nat,
            available_bytes: self.available_bytes,
            full_psi_percent: self.full_psi_percent@,
            emergency_active: self.emergency_active,
            actions_in_window: self.actions_in_window as nat,
            mounts: findings(self.mounts@),
            unit_active: activity(self.unit_active@),
        }
    }
}

/// How one character of a label value is written.
pub open spec fn label_char(c: char) -> Seq<char> {
    if c == '\\' {
        seq!['\\', '\\']
    } else if c == '"' {
        seq!['\\', '"']
    } else if c == '\n' {
        seq!['\\', 'n']
    } else {
        seq![c]
    }
}

/// How a label value is written.
pub open spec fn label_text(value: Seq<char>) -> Seq<char>
    decreases value.len(),
{
    if value.len() == 0 {
        Seq::empty()
    } else {
        label_text(value.drop_last()) + label_char(value.last())
    }
}

/// Escape a label value per the Prometheus exposition format. A mountpoint
/// containing a quote or backslash would otherwise produce a file that the
/// textfile collector rejects wholesale, taking every other metric with it.
pub fn escape(value: &str) -> (out: String)
    ensures
        out@ == label_text(value@),
{
    let chars = text::chars_of(value);
    let mut out = String::new();
    let mut i: usize = 0;
    while i < chars.len()
        invariant
            i <= chars.len(),
            chars@ == value@,
            out@ == label_text(value@.take(i as int)),
        decreases chars.len() - i,
    {
        let ghost before = out@;
        let c = chars[i];
        assert(value@.take(i + 1).drop_last() == value@.take(i as int));
        if c == '\\' {
            out.push('\\');
            out.push('\\');
        } else if c == '"' {
            out.push('\\');
            out.push('"');
        } else if c == '\n' {
            out.push('\\');
            out.push('n');
        } else {
            out.push(c);
        }
        assert(out@ == before + label_char(c));
        i += 1;
    }
    assert(value@.take(i as int) == value@);
    out
}

/// The line that explains a metric.
pub open spec fn help_line(name: Seq<char>, about: Seq<char>) -> Seq<char> {
    "# HELP "@ + name + " "@ + about
}

/// The line that declares a metric.
pub open spec fn type_line(name: Seq<char>) -> Seq<char> {
    "# TYPE "@ + name + " gauge"@
}

/// The line that gives the value of a metric.
pub open spec fn sample_line(name: Seq<char>, value: Seq<char>) -> Seq<char> {
    name + " "@ + value
}

/// A metric with the label that tells which item it is of.
pub open spec fn labelled(name: Seq<char>, label: Seq<char>, item: Seq<char>) -> Seq<char> {
    name + "{"@ + label + "=\""@ + label_text(item) + "\"}"@
}

/// The lines of a metric that has one value.
pub open spec fn gauge(name: Seq<char>, value: Seq<char>) -> Seq<Seq<char>> {
    seq![type_line(name), sample_line(name, value)]
}

/// The lines that tell which mounts match their expected identity.
pub open spec fn mount_ok_lines(mounts: Seq<(Seq<char>, Finding)>) -> Seq<Seq<char>> {
    Seq::new(
        mounts.len(),
        |i: int|
            sample_line(
                labelled("host_guardian_mount_ok"@, "path"@, mounts[i].0),
                text::flag(mounts[i].1 == Finding::Expected),
            ),
    )
}

/// The lines that tell at which mountpoints anything is mounted.
pub open spec fn mount_present_lines(mounts: Seq<(Seq<char>, Finding)>) -> Seq<Seq<char>> {
    Seq::new(
        mounts.len(),
        |i: int|
            sample_line(
                labelled("host_guardian_mount_present"@, "path"@, mounts[i].0),
                text::flag(mounts[i].1 != Finding::Nothing),
            ),
    )
}

/// The lines that tell which units are active.
pub open spec fn unit_lines(units: Seq<(Seq<char>, bool)>) -> Seq<Seq<char>> {
    Seq::new(
        units.len(),
        |i: int|
            sample_line(
                labelled("host_guardian_unit_active"@, "unit"@, units[i].0),
                text::flag(units[i].1),
            ),
    )
}

/// The lines that a snapshot is published as.
pub open spec fn exposition(s: Published) -> Seq<Seq<char>> {
    seq![
        help_line(
            "host_guardian_up"@,
            "Whether the last evaluation completed without errors."@,
        ),
    ] + gauge("host_guardian_up"@, text::flag(s.up)) + gauge(
        "host_guardian_observe_only"@,
        text::flag(s.observe_only),
    ) + gauge(
        "host_guardian_last_run_timestamp_seconds"@,
        text::decimal(s.timestamp as nat),
    ) + gauge("host_guardian_errors"@, text::decimal(s.errors)) + gauge(
        "host_guardian_memory_available_bytes"@,
        text::decimal(s.available_bytes as nat),
    ) + gauge("host_guardian_memory_full_psi_percent"@, s.full_psi_percent) + gauge(
        "host_guardian_memory_emergency"@,
        text::flag(s.emergency_active),
    ) + gauge(
        "host_guardian_actions_in_window"@,
        text::decimal(s.actions_in_window),
    ) + seq![
        help_line(
            "host_guardian_mount_ok"@,
            "Whether a mount matches its expected identity."@,
        ),
        type_line("host_guardian_mount_ok"@),
    ] + mount_ok_lines(s.mounts) + seq![type_line("host_guardian_mount_present"@)]
        + mount_present_lines(s.mounts) + seq![type_line("host_guardian_unit_active"@)]
        + unit_lines(s.unit_active)
}

/// The text whose lines these are, each ended by a line feed.
pub open spec fn ended(all: Seq<Seq<char>>) -> Seq<char>
    decreases all.len(),
{
    if all.len() == 0 {
        Seq::empty()
    } else {
        ended(all.drop_last()) + all.last() + "\n"@
    }
}

/// Writes the line that explains a metric.
fn put_help(out: &mut Vec<String>, name: &str, about: &str)
    ensures
        text::texts(final(out)@) == text::texts(old(out)@) + seq![help_line(name@, about@)],
{
    let mut line = "# HELP ".to_owned();
    line.append(name);
    line.append(" ");
    line.append(about);
    out.push(line);
}

/// Writes the line that declares a metric.
fn put_type(out: &mut Vec<String>, name: &str)
    ensures
        text::texts(final(out)@) == text::texts(old(out)@) + seq![type_line(name@)],
{
    let mut line = "# TYPE ".to_owned();
    line.append(name);
    line.append(" gauge");
    out.push(line);
}

/// Writes the lines of a metric that has one value.
fn put_gauge(out: &mut Vec<String>, name: &str, value: &str)
    ensures
        text::texts(final(out)@) == text::texts(old(out)@) + gauge(name@, value@),
{
    put_type(out, name);
    let ghost declared = text::texts(out@);
    let mut line = name.to_owned();
    line.append(" ");
    line.append(value);
    out.push(line);
    assert(text::texts(out@) == declared.push(sample_line(name@, value@)));
}

/// Writes the line that gives the value of a metric for one item.
fn put_labelled(out: &mut Vec<String>, name: &str, label: &str, item: &str, value: &str)
    ensures
        text::texts(final(out)@) == text::texts(old(out)@) + seq![
            sample_line(labelled(name@, label@, item@), value@),
        ],
{
    let mut line = name.to_owned();
    line.append("{");
    line.append(label);
    line.append("=\"");
    line.append(escape(item).as_str());
    line.append("\"}");
    line.append(" ");
    line.append(value);
    out.push(line);
}

/// Writes which mounts match their expected identity.
fn put_mount_ok(out: &mut Vec<String>, mounts: &[(String, MountVerdict)])
    ensures
        text::texts(final(out)@) == text::texts(old(out)@) + mount_ok_lines(findings(mounts@)),
{
    let mut i: usize = 0;
    while i < mounts.len()
        invariant
            i <= mounts.len(),
            text::texts(out@) == text::texts(old(out)@) + mount_ok_lines(findings(mounts@)).take(i as int),
        decreases mounts.len() - i,
    {
        let ok = match &mounts[i].1 {
            MountVerdict::Verified => true,
            _ => false,
        };
        put_labelled(
            out,
            "host_guardian_mount_ok",
            "path",
            mounts[i].0.as_str(),
            text::flag_of(ok).as_str(),
        );
        i += 1;
    }
}

/// Writes at which mountpoints anything is mounted.
fn put_mount_present(out: &mut Vec<String>, mounts: &[(String, MountVerdict)])
    ensures
        text::texts(final(out)@) == text::texts(old(out)@) + mount_present_lines(findings(mounts@)),
{
    let mut i: usize = 0;
    while i < mounts.len()
        invariant
            i <= mounts.len(),
            text::texts(out@) == text::texts(old(out)@) + mount_present_lines(findings(mounts@)).take(i as int),
        decreases mounts.len() - i,
    {
        let present = match &mounts[i].1 {
            MountVerdict::Missing => false,
            _ => true,
        };
        put_labelled(
            out,
            "host_guardian_mount_present",
            "path",
            mounts[i].0.as_str(),
            text::flag_of(present).as_str(),
        );
        i += 1;
    }
}

/// Writes which units are active.
fn put_units(out: &mut Vec<String>, units: &[(String, bool)])
    ensures
        text::texts(final(out)@) == text::texts(old(out)@) + unit_lines(activity(units@)),
{
    let mut i: usize = 0;
    while i < units.len()
        invariant
            i <= units.len(),
            text::texts(out@) == text::texts(old(out)@) + unit_lines(activity(units@)).take(i as int),
        decreases units.len() - i,
    {
        put_labelled(
            out,
            "host_guardian_unit_active",
            "unit",
            units[i].0.as_str(),
            text::flag_of(units[i].1).as_str(),
        );
        i += 1;
    }
}

/// Writes lines as one text.
fn end_lines(all: &Vec<String>) -> (out: String)
    ensures
        out@ == ended(text::texts(all@)),
{
    let mut out = String::new();
    let ghost model = text::texts(all@);
    let mut i: usize = 0;
    while i < all.len()
        invariant
            i <= all.len(),
            model == text::texts(all@),
            out@ == ended(model.take(i as int)),
        decreases all.len() - i,
    {
        assert(model.take(i + 1).drop_last() == model.take(i as int));
        assert(model.take(i + 1).last() == all@[i as int]@);
        out.append(all[i].as_str());
        out.append("\n");
        i += 1;
    }
    assert(model.take(i as int) == model);
    out
}

/// Writes a snapshot in the Prometheus exposition format.
#[must_use]
pub fn render(s: &Snapshot) -> (out: String)
    ensures
        out@ == ended(exposition(s@)),
{
    let mut all: Vec<String> = Vec::new();
    put_help(
        &mut all,
        "host_guardian_up",
        "Whether the last evaluation completed without errors.",
    );
    put_gauge(&mut all, "host_guardian_up", text::flag_of(s.up).as_str());
    put_gauge(&mut all, "host_guardian_observe_only", text::flag_of(s.observe_only).as_str());
    put_gauge(
        &mut all,
        "host_guardian_last_run_timestamp_seconds",
        text::decimal_of(s.timestamp).as_str(),
    );
    put_gauge(&mut all, "host_guardian_errors", text::decimal_of(s.errors as u64).as_str());
    put_gauge(
        &mut all,
        "host_guardian_memory_available_bytes",
        text::decimal_of(s.available_bytes).as_str(),
    );
    put_gauge(&mut all, "host_guardian_memory_full_psi_percent", s.full_psi_percent);
    put_gauge(
        &mut all,
        "host_guardian_memory_emergency",
        text::flag_of(s.emergency_active).as_str(),
    );
    put_gauge(
        &mut all,
        "host_guardian_actions_in_window",
        text::decimal_of(s.actions_in_window as u64).as_str(),
    );
    put_help(
        &mut all,
        "host_guardian_mount_ok",
        "Whether a mount matches its expected identity.",
    );
    put_type(&mut all, "host_guardian_mount_ok");
    put_mount_ok(&mut all, s.mounts);
    put_type(&mut all, "host_guardian_mount_present");
    put_mount_present(&mut all, s.mounts);
    put_type(&mut all, "host_guardian_unit_active");
    put_units(&mut all, s.unit_active);
    assert(text::texts(all@) == exposition(s@));
    end_lines(&all)
}

} // verus!
