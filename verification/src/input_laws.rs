//! Laws of inputs: the operations of the library take whatever they are given.

use crate::actions::{ActionPolicy, Budget};
use crate::config;
use crate::config::{Config, ConfigError};
use crate::daemon;
use crate::gate::{Gate, Gated};
use crate::guardian;
use crate::guardian::{Evaluation, Mode, Readings};
use crate::incident;
use crate::incident::Incident;
use crate::metrics;
use crate::metrics::Snapshot;
use crate::mounts;
use crate::mounts::{MountError, MountExpectation, MountTable, MountVerdict};
use crate::percent::Percent;
use crate::pressure;
use crate::pressure::{EmergencyThresholds, Pressure, SensorError};
use crate::psi;
use crate::psi::{ArmError, Polled, Trigger};
use crate::systemd;
use crate::systemd::Finished;
use crate::text;
use vstd::prelude::*;

verus! {

/// Any text can be read as a configuration's part, a sensor's file or a mount table; only what a
/// meminfo states must fit in 64 bits once it is counted in bytes.
pub proof fn any_text_can_be_read(
    content: &str,
    number: Option<Percent>,
    decoded: Result<Config, String>,
    error: &ConfigError,
    sensor: &SensorError,
    mount: &MountError,
    wanted: &[MountExpectation],
    table: &MountTable,
)
    ensures
        call_requires(config::parse, (decoded,)),
        call_requires(config::is_safe_unit, (content,)),
        call_requires(config::is_absolute, (content,)),
        call_requires(ConfigError::message, (error,)),
        call_requires(pressure::mem_available_fits, (content,)),
        call_requires(pressure::find_psi_full_avg10, (content,)),
        call_requires(pressure::parse_psi_full_avg10, (content, number)),
        call_requires(SensorError::message, (sensor,)),
        call_requires(mounts::unescape, (content,)),
        call_requires(mounts::parse_mountinfo, (content,)),
        call_requires(MountError::message, (mount,)),
        call_requires(mounts::verify, (wanted, table)),
        call_requires(metrics::escape, (content,)),
        (match pressure::mem_available_kib(text::lines(content@)) {
            Ok(kib) => kib * 1024 <= 18446744073709551615,
            Err(_) => true,
        }) ==> call_requires(pressure::parse_mem_available, (content,)),
{
}

/// Any state can be run on, whatever the clocks say; readings can be evaluated where there is one
/// flag for each unit, and available bytes fit.
pub proof fn any_state_can_be_run_on(
    cfg: &Config,
    readings: &Readings,
    gate: &mut Gate,
    budget: &mut Budget,
    ev: &Evaluation,
    emergency: Gated,
    now: u64,
    mono: u64,
    mode: Mode,
    key: &str,
    active: bool,
    required: u32,
    policy: &ActionPolicy,
    p: Pressure,
    t: EmergencyThresholds,
    s: &Snapshot,
)
    ensures
        call_requires(guardian::run_once, (cfg, gate, budget, ev, now, mono, mode)),
        call_requires(guardian::handle_emergency, (cfg, budget, ev, emergency, now, mono)),
        call_requires(Gate::observe, (gate, key, active, required)),
        call_requires(Gated::active, (emergency,)),
        call_requires(Budget::try_admit, (budget, key, now, policy, active)),
        call_requires(pressure::is_emergency, (p, t)),
        call_requires(metrics::render, (s,)),
        readings.unit_active@.len() == cfg.shed_units@.len() && (readings.meminfo matches Ok(content)
            ==> (pressure::mem_available_kib(text::lines(content@)) matches Ok(kib) ==> kib * 1024
            <= 18446744073709551615)) ==> call_requires(guardian::evaluate, (cfg, readings)),
{
}

/// Any incident can be recorded, under any key and at any time.
pub proof fn any_incident_can_be_recorded(
    incident: &Incident,
    verdict: &MountVerdict,
    event: &str,
    outcome: Result<(), String>,
    ev: &Evaluation,
    now: u64,
    object: Option<String>,
)
    ensures
        call_requires(incident::incident_slug, (event,)),
        call_requires(incident::incident_file_name, (now, event)),
        call_requires(incident::describe_verdict, (verdict,)),
        call_requires(incident::incident_fields, (incident,)),
        call_requires(incident::frame_record, (object,)),
        call_requires(incident::incident_text, (incident,)),
        call_requires(guardian::shed_record, (event, outcome, ev, now)),
{
}

/// Any answer of the host can be read, and it can be asked about anything.
pub proof fn any_answer_of_the_host_can_be_read(
    address: Option<String>,
    word: &str,
    exited: bool,
    elapsed: u128,
    timeout: u128,
    run: &Result<Finished, String>,
    trigger: &Trigger,
    polled: Polled,
    error: ArmError,
)
    ensures
        call_requires(systemd::notify, (address, word)),
        call_requires(systemd::notify_ready, (address,)),
        call_requires(systemd::ping_watchdog, (address,)),
        call_requires(systemd::watchdog_interval, (address,)),
        call_requires(systemd::systemctl, (exited, elapsed, timeout)),
        call_requires(systemd::is_active_args, (word,)),
        call_requires(systemd::stop_args, (word,)),
        call_requires(systemd::is_active, (run,)),
        call_requires(systemd::stop, (run,)),
        call_requires(Trigger::arm, (elapsed, timeout)),
        call_requires(Trigger::request, (trigger,)),
        call_requires(Trigger::wait, (trigger, polled)),
        call_requires(ArmError::message, (error,)),
        call_requires(psi::poll_timeout, (elapsed,)),
{
}

/// Any command line can be read, and the daemon can be set up in any way.
pub proof fn any_command_line_can_be_read(
    args: &Vec<String>,
    version: &str,
    seconds: u64,
    ping: Option<u64>,
    once: bool,
    name: Option<&str>,
)
    ensures
        call_requires(daemon::parse_args, (args,)),
        call_requires(daemon::version_text, (version,)),
        call_requires(daemon::help_text, (version,)),
        call_requires(daemon::wait_micros, (seconds, ping)),
        call_requires(daemon::mode_of, (once,)),
        call_requires(daemon::temporary_name, (name,)),
{
}

} // verus!
