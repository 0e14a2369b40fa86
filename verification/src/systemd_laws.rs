//! Laws of the systemd interface: what systemd is told and asked, and how its answers are read.

use crate::systemd;
use crate::systemd::{Finished, Notification, Watch};
use crate::text;
use vstd::prelude::*;

verus! {

/// Whether `path` is the socket that `address` names: the address itself, but with a NUL for a
/// leading `@`.
pub open spec fn names_socket(address: Seq<char>, path: Seq<char>) -> bool {
    &&& path.len() == address.len()
    &&& address[0] == '@' ==> path[0] as int == 0
    &&& address[0] != '@' ==> path[0] == address[0]
    &&& forall|i: int| 0 < i < address.len() ==> #[trigger] path[i] == address[i]
}

/// Whether `state` is what is sent, to the socket that was given, and nothing where none was.
pub open spec fn tells(
    address: Option<String>,
    out: Option<Notification>,
    state: Seq<char>,
) -> bool {
    &&& out is Some <==> address is Some && address->0@.len() > 0
    &&& out matches Some(n) ==> n.state@ == state && names_socket(address->0@, n.path@)
}

/// A notification is sent exactly if an address other than an empty one is given. It goes to the
/// socket of that address, an abstract one for a leading `@`, and holds the state as it is.
pub proof fn a_state_is_told_to_the_given_socket(
    address: Option<String>,
    state: &str,
    out: Option<Notification>,
    ready: Option<Notification>,
    ping: Option<Notification>,
)
    requires
        call_ensures(systemd::notify, (address, state), out),
        call_ensures(systemd::notify_ready, (address,), ready),
        call_ensures(systemd::ping_watchdog, (address,), ping),
    ensures
        tells(address, out, state@),
        tells(address, ready, "READY=1"@),
        tells(address, ping, "WATCHDOG=1"@),
{
}

/// The watchdog is pinged twice in each interval that systemd allows: the time between pings is
/// half of it, rounded down. Where no number is given, or zero, there are no pings.
pub proof fn the_watchdog_is_pinged_at_half_its_interval(usec: Option<String>, out: Option<u64>)
    requires
        call_ensures(systemd::watchdog_interval, (usec,), out),
    ensures
        usec is None ==> out is None,
        usec matches Some(s) ==> (out is Some <==> text::number(s@) is Some && text::number(s@)->0
            != 0),
        out matches Some(half) ==> 2 * half == text::number(usec->0@)->0 || 2 * half + 1
            == text::number(usec->0@)->0,
{
}

/// A `systemctl` that is done is collected, however long it took. Another is killed as soon as its
/// time is up, and not before.
pub proof fn a_systemctl_is_killed_once_its_time_is_up(
    exited: bool,
    elapsed: u128,
    timeout: u128,
    watch: Watch,
)
    requires
        call_ensures(systemd::systemctl, (exited, elapsed, timeout), watch),
    ensures
        watch == Watch::Collect <==> exited,
        watch == Watch::Kill <==> !exited && timeout <= elapsed,
        watch == Watch::Sleep <==> !exited && elapsed < timeout,
{
}

/// A `systemctl` that was killed is reported as late.
pub proof fn a_late_systemctl_is_reported(message: String)
    requires
        call_ensures(systemd::timeout_message, (), message),
    ensures
        message@ == "systemctl exceeded its timeout"@,
{
}

/// The commands that learn of a unit and stop it name the verb first and the unit last, behind
/// `--`; the question is quiet.
pub proof fn commands_name_verb_and_unit(unit: &str, ask: Vec<String>, stop: Vec<String>)
    requires
        call_ensures(systemd::is_active_args, (unit,), ask),
        call_ensures(systemd::stop_args, (unit,), stop),
    ensures
        ask@.len() == 4,
        ask@[0]@ == "is-active"@,
        ask@[1]@ == "--quiet"@,
        ask@[2]@ == "--"@,
        ask@[3]@ == unit@,
        stop@.len() == 3,
        stop@[0]@ == "stop"@,
        stop@[1]@ == "--"@,
        stop@[2]@ == unit@,
{
    let a = text::texts(ask@);
    let b = text::texts(stop@);
    assert(a.len() == ask@.len());
    assert(b.len() == stop@.len());
    assert(a[0] == ask@[0]@ && a[1] == ask@[1]@ && a[2] == ask@[2]@ && a[3] == ask@[3]@);
    assert(b[0] == stop@[0]@ && b[1] == stop@[1]@ && b[2] == stop@[2]@);
}

/// A unit counts as active exactly if `systemctl` ran and succeeded.
pub proof fn a_unit_is_active_if_systemctl_succeeds(run: &Result<Finished, String>, yes: bool)
    requires
        call_ensures(systemd::is_active, (run,), yes),
    ensures
        yes <==> *run is Ok && (*run)->Ok_0.success,
{
}

/// A unit counts as stopped exactly if `systemctl` ran and succeeded. Where it did not run, the
/// reason is why not; where it failed, what it wrote, without the white space around it, or its
/// status where that leaves nothing.
pub proof fn a_failed_stop_says_why(run: &Result<Finished, String>, out: Result<(), String>)
    requires
        call_ensures(systemd::stop, (run,), out),
    ensures
        out is Ok <==> *run is Ok && (*run)->Ok_0.success,
        *run matches Err(why) ==> out->Err_0@ == why@,
        *run matches Ok(finished) ==> !finished.success ==> ({
            let written = text::trimmed(text::lossy(finished.stderr@));
            &&& written.len() > 0 ==> out->Err_0@ == written
            &&& written.len() == 0 ==> out->Err_0@ == "systemctl stop exited "@ + finished.status@
        }),
{
}

} // verus!
