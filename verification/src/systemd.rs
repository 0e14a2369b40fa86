//! The systemd interface: readiness/watchdog notification and unit control.

use crate::text;
use vstd::prelude::*;

verus! {

/// A datagram for the notification socket at `path`.
#[derive(Debug, PartialEq, Eq)]
pub struct Notification {
    pub path: String,
    pub state: String,
}

/// The path of the socket that an address stands for. A leading '@' denotes an abstract socket,
/// encoded as a leading NUL.
pub open spec fn socket_path(address: Seq<char>) -> Seq<char> {
    if address.len() > 0 && address[0] == '@' {
        seq!['\0'] + address.drop_first()
    } else {
        address
    }
}

/// What is sent to tell systemd a state, given the address that `NOTIFY_SOCKET` holds: the path
/// and the state, or nothing where there is no address or an empty one.
pub open spec fn notification(address: Option<String>, state: Seq<char>) -> Option<
    (Seq<char>, Seq<char>),
> {
    match address {
        Some(address) if address@.len() > 0 => Some((socket_path(address@), state)),
        _ => None,
    }
}

/// The texts of a notification, if there is one.
pub open spec fn sent(n: Option<Notification>) -> Option<(Seq<char>, Seq<char>)> {
    match n {
        Some(n) => Some((n.path@, n.state@)),
        None => None,
    }
}

/// Compose a `sd_notify` datagram, given the address that `NOTIFY_SOCKET` holds.
///
/// Absent `NOTIFY_SOCKET` means we were not started by systemd; that is normal
/// for a foreground run and is not an error.
pub fn notify(address: Option<String>, state: &str) -> (out: Option<Notification>)
    ensures
        sent(out) == notification(address, state@),
{
    let address = match address {
        Some(address) => address,
        None => {
            return None;
        },
    };
    let chars = text::chars_of(address.as_str());
    if chars.len() == 0 {
        return None;
    }
    let path = if chars[0] == '@' {
        let mut path = String::new();
        path.push('\0');
        let rest = text::slice_of(chars.as_slice(), 1, chars.len());
        path.append(text::string_of(rest.as_slice()).as_str());
        assert(path@ == socket_path(address@));
        path
    } else {
        address
    };
    Some(Notification { path, state: state.to_owned() })
}

/// Tells systemd that the service is up.
pub fn notify_ready(address: Option<String>) -> (out: Option<Notification>)
    ensures
        sent(out) == notification(address, "READY=1"@),
{
    notify(address, "READY=1")
}

/// Tells systemd that the service is not wedged.
pub fn ping_watchdog(address: Option<String>) -> (out: Option<Notification>)
    ensures
        sent(out) == notification(address, "WATCHDOG=1"@),
{
    notify(address, "WATCHDOG=1")
}

/// Half of what `WATCHDOG_USEC` holds, where that is a number other than zero.
pub open spec fn ping_interval(usec: Option<String>) -> Option<u64> {
    match usec {
        Some(s) => match text::number(s@) {
            Some(n) if n > 0 => Some((n / 2) as u64),
            _ => None,
        },
        None => None,
    }
}

/// Watchdog interval in microseconds from `WatchdogSec=`, halved, given what `WATCHDOG_USEC`
/// holds.
///
/// systemd's own guidance is to ping at half the configured interval so a
/// single slow cycle does not trip the timeout.
#[must_use]
pub fn watchdog_interval(usec: Option<String>) -> (out: Option<u64>)
    ensures
        out == ping_interval(usec),
{
    let chars = match usec {
        Some(s) => text::chars_of(s.as_str()),
        None => {
            return None;
        },
    };
    match text::parse_number(chars.as_slice()) {
        Some(n) => {
            if n == 0 {
                None
            } else {
                Some(n / 2)
            }
        },
        None => None,
    }
}

/// How `systemctl` finished: whether it succeeded, its status as text, and what it wrote to
/// standard error.
pub struct Finished {
    pub success: bool,
    pub status: String,
    pub stderr: Vec<u8>,
}

/// What to do about a `systemctl` that was started.
#[derive(Debug, Clone, Copy, PartialEq, Eq, Structural)]
pub enum Watch {
    /// It is done: take its output.
    Collect,
    /// It outlived its budget: kill it, and report a timeout.
    Kill,
    /// Look again in a moment.
    Sleep,
}

/// What is to be done about a `systemctl` that was started `elapsed` ago. Completion goes before
/// the timeout.
pub open spec fn watched(exited: bool, elapsed: u128, timeout: u128) -> Watch {
    if exited {
        Watch::Collect
    } else if elapsed >= timeout {
        Watch::Kill
    } else {
        Watch::Sleep
    }
}

/// A wedged systemctl must not wedge the guardian: look for completion and
/// kill it if it outlives the budget. Times are in nanoseconds.
pub fn systemctl(exited: bool, elapsed: u128, timeout: u128) -> (watch: Watch)
    ensures
        watch == watched(exited, elapsed, timeout),
{
    if exited {
        Watch::Collect
    } else if elapsed >= timeout {
        Watch::Kill
    } else {
        Watch::Sleep
    }
}

/// A `systemctl` is waited for no longer than its timeout, and is killed only once it has outlived
/// that.
pub proof fn systemctl_cannot_wedge_the_guardian(exited: bool, elapsed: u128, timeout: u128)
    ensures
        elapsed >= timeout ==> watched(exited, elapsed, timeout) != Watch::Sleep,
        watched(exited, elapsed, timeout) == Watch::Kill ==> !exited && elapsed >= timeout,
{
}

/// The text that reports a `systemctl` that was killed.
pub fn timeout_message() -> (text: String)
    ensures
        text@ == "systemctl exceeded its timeout"@,
{
    "systemctl exceeded its timeout".to_owned()
}

/// The arguments that ask `systemctl` whether `unit` is active.
pub open spec fn active_request(unit: Seq<char>) -> Seq<Seq<char>> {
    seq!["is-active"@, "--quiet"@, "--"@, unit]
}

/// The arguments that ask `systemctl` to stop `unit`.
pub open spec fn stop_request(unit: Seq<char>) -> Seq<Seq<char>> {
    seq!["stop"@, "--"@, unit]
}

/// What `systemctl` is asked to learn whether `unit` is active. `--` so a unit name can never be
/// read as an option.
pub fn is_active_args(unit: &str) -> (args: Vec<String>)
    ensures
        text::texts(args@) == active_request(unit@),
{
    let mut args: Vec<String> = Vec::new();
    args.push("is-active".to_owned());
    args.push("--quiet".to_owned());
    args.push("--".to_owned());
    args.push(unit.to_owned());
    assert(text::texts(args@) == active_request(unit@));
    args
}

/// What `systemctl` is asked to stop `unit`. `--` so a unit name can never be read as an option.
pub fn stop_args(unit: &str) -> (args: Vec<String>)
    ensures
        text::texts(args@) == stop_request(unit@),
{
    let mut args: Vec<String> = Vec::new();
    args.push("stop".to_owned());
    args.push("--".to_owned());
    args.push(unit.to_owned());
    assert(text::texts(args@) == stop_request(unit@));
    args
}

/// Whether the last of the arguments, `unit`, comes directly behind the first `--`, where it
/// cannot be read as an option.
pub open spec fn only_operand(args: Seq<Seq<char>>, unit: Seq<char>) -> bool {
    &&& args.len() >= 2
    &&& args.last() == unit
    &&& args[args.len() - 2] == "--"@
    &&& forall|i: int| 0 <= i < args.len() - 2 ==> #[trigger] args[i] != "--"@
}

/// Whatever a unit is called, its name is the one operand of the command, never an option.
pub proof fn unit_is_never_an_option(unit: Seq<char>)
    ensures
        only_operand(active_request(unit), unit),
        only_operand(stop_request(unit), unit),
{
    reveal_strlit("is-active");
    reveal_strlit("--quiet");
    reveal_strlit("stop");
    reveal_strlit("--");
    assert("is-active"@.len() != "--"@.len());
    assert("--quiet"@.len() != "--"@.len());
    assert("stop"@.len() != "--"@.len());
}

/// Tells whether a unit is active, from how `systemctl` was run or why it was not. `is-active`
/// exits non-zero for inactive units, which is not an error.
pub fn is_active(run: &Result<Finished, String>) -> (yes: bool)
    ensures
        yes == match run {
            Ok(finished) => finished.success,
            Err(_) => false,
        },
{
    match run {
        Ok(finished) => finished.success,
        Err(_) => false,
    }
}

/// Why a stop failed that `systemctl` itself reported as failed: what it wrote, or else its
/// status.
pub open spec fn stop_failure(finished: Finished) -> Seq<char> {
    let written = text::trimmed(text::lossy(finished.stderr@));
    if written.len() == 0 {
        "systemctl stop exited "@ + finished.status@
    } else {
        written
    }
}

/// Tells whether a unit was stopped, from how `systemctl` was run or why it was not.
pub fn stop(run: &Result<Finished, String>) -> (out: Result<(), String>)
    ensures
        match run {
            Ok(finished) => if finished.success {
                out is Ok
            } else {
                out matches Err(why) && why@ == stop_failure(*finished)
            },
            Err(error) => out matches Err(why) && why@ == error@,
        },
{
    match run {
        Ok(finished) => {
            if finished.success {
                return Ok(());
            }
            let written = text::trim(text::utf8_lossy(finished.stderr.as_slice()).as_str());
            if written.as_str().is_empty() {
                let mut why = "systemctl stop exited ".to_owned();
                why.append(finished.status.as_str());
                Err(why)
            } else {
                Err(written)
            }
        },
        Err(error) => Err(error.clone()),
    }
}

} // verus!
