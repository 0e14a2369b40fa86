//! Laws of PSI triggers: what the kernel is asked for, and what its answer means.

use crate::psi;
use crate::psi::{ArmError, Polled, Trigger, WaitError};
use crate::text;
use vstd::prelude::*;

verus! {

/// What a trigger writes to the PSI file is the stall and the window that it was armed with, in
/// microseconds.
pub proof fn a_trigger_asks_for_what_it_was_armed_with(
    stall: u128,
    window: u128,
    armed: Result<Trigger, ArmError>,
    line: String,
)
    requires
        call_ensures(Trigger::arm, (stall, window), armed),
        armed is Ok,
        call_ensures(Trigger::request, (&armed->Ok_0,), line),
    ensures
        line@ == "full "@ + text::decimal(stall as nat) + " "@ + text::decimal(window as nat),
{
}

/// A trigger is armed exactly for windows of half a second to ten seconds and stalls that fit in
/// them. A window out of range is reported before a stall that does not fit.
pub proof fn a_trigger_is_armed_for_what_the_kernel_takes(
    stall: u128,
    window: u128,
    armed: Result<Trigger, ArmError>,
)
    requires
        call_ensures(Trigger::arm, (stall, window), armed),
    ensures
        armed is Ok <==> 500000 <= window && window <= 10000000 && stall <= window,
        armed == Err::<Trigger, ArmError>(ArmError::WindowOutOfRange) <==> window < 500000 || window
            > 10000000,
        armed == Err::<Trigger, ArmError>(ArmError::StallAboveWindow) <==> 500000 <= window
            && window <= 10000000 && stall > window,
{
}

/// The daemon wakes for a stall of 150 milliseconds within two seconds, which a trigger takes.
pub proof fn the_stall_of_the_daemon_is_taken(armed: Result<Trigger, ArmError>)
    requires
        call_ensures(Trigger::arm, (psi::STALL_US, psi::WINDOW_US), armed),
    ensures
        armed is Ok,
        armed->Ok_0.stall() == 150000,
        armed->Ok_0.window() == 2000000,
{
}

/// A refusal says which limit was missed.
pub proof fn a_refusal_says_which_limit_was_missed(error: ArmError, message: String)
    requires
        call_ensures(ArmError::message, (error,), message),
    ensures
        error == ArmError::WindowOutOfRange ==> message@
            == "PSI window must be between 500ms and 10s"@,
        error == ArmError::StallAboveWindow ==> message@
            == "PSI stall threshold cannot exceed the window"@,
{
}

/// A wait is told as pressure exactly if `poll()` returned events, the bit of a fired trigger among
/// them and that of an error not. It fails exactly if `poll()` failed other than by an
/// interruption, or returned events with the bit of an error; else it is told as a timeout.
pub proof fn a_wait_tells_what_poll_returned(
    trigger: &Trigger,
    polled: Polled,
    out: Result<bool, WaitError>,
)
    requires
        call_ensures(Trigger::wait, (trigger, polled), out),
    ensures
        out == Ok::<bool, WaitError>(true) <==> polled.rc > 0 && polled.revents & polled.fired_bit
            != 0 && polled.revents & polled.error_bit == 0,
        out == Err::<bool, WaitError>(WaitError::Os) <==> polled.rc < 0 && !polled.interrupted,
        out == Err::<bool, WaitError>(WaitError::Trigger) <==> polled.rc > 0 && polled.revents
            & polled.error_bit != 0,
{
}

/// A trigger in error is reported by the event that told it.
pub proof fn a_trigger_in_error_is_reported(message: String)
    requires
        call_ensures(WaitError::trigger_message, (), message),
    ensures
        message@ == "PSI trigger returned POLLERR"@,
{
}

/// `poll()` is asked to wait for as long as is meant, or for the longest time that it takes where
/// that is shorter; never for less, and never without end.
pub proof fn poll_waits_as_long_as_is_meant(millis: u128, timeout: i32)
    requires
        call_ensures(psi::poll_timeout, (millis,), timeout),
    ensures
        0 <= timeout,
        timeout <= millis,
        timeout == millis || timeout == 2147483647,
{
}

} // verus!
