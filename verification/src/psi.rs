//! PSI trigger: let the kernel decide when to wake us.
//!
//! Interval polling bounds the reaction to a memory emergency below by that
//! interval, and wastes every other tick. A PSI trigger blocks in `poll()`
//! until stall time crosses the threshold. Availability varies by kernel
//! config, so arming can fail in ways the caller can degrade from.

use crate::text;
use vstd::prelude::*;

verus! {

/// The shortest window that the kernel takes, in microseconds.
pub const MIN_WINDOW_US: u64 = 500_000;

/// The longest window that the kernel takes, in microseconds.
pub const MAX_WINDOW_US: u64 = 10_000_000;

/// The stall that wakes the daemon, in microseconds.
pub const STALL_US: u128 = 150_000;

/// The window in which that stall is counted, in microseconds.
pub const WINDOW_US: u128 = 2_000_000;

/// A trigger that the kernel takes: it fires when tasks are fully stalled on memory for `stall`
/// within any `window`.
pub struct Trigger {
    stall_us: u64,
    window_us: u64,
}

/// Why a trigger is refused.
#[derive(Debug, Clone, Copy, PartialEq, Eq)]
pub enum ArmError {
    WindowOutOfRange,
    StallAboveWindow,
}

impl ArmError {
    /// The text that reports the error.
    pub fn message(self) -> (text: String)
        ensures
            text@ == match self {
                ArmError::WindowOutOfRange => "PSI window must be between 500ms and 10s"@,
                ArmError::StallAboveWindow => "PSI stall threshold cannot exceed the window"@,
            },
    {
        match self {
            ArmError::WindowOutOfRange => "PSI window must be between 500ms and 10s".to_owned(),
            ArmError::StallAboveWindow => {
                "PSI stall threshold cannot exceed the window".to_owned()
            },
        }
    }
}

/// What `poll()` reported: its return value, whether it failed by an interruption, the events
/// that were returned, and the bits that stand for a fired trigger and for an error.
#[derive(Debug, Clone, Copy)]
pub struct Polled {
    pub rc: i32,
    pub interrupted: bool,
    pub revents: i16,
    pub fired_bit: i16,
    pub error_bit: i16,
}

/// Why waiting failed.
#[derive(Debug, Clone, Copy, PartialEq, Eq)]
pub enum WaitError {
    /// `poll()` itself failed.
    Os,
    /// The trigger is in error.
    Trigger,
}

impl WaitError {
    /// The text that reports a trigger in error.
    pub fn trigger_message() -> (text: String)
        ensures
            text@ == "PSI trigger returned POLLERR"@,
    {
        "PSI trigger returned POLLERR".to_owned()
    }
}

impl Trigger {
    /// The window is one that the kernel takes, and the stall fits in it.
    #[verifier::type_invariant]
    spec fn accepted(self) -> bool {
        &&& MIN_WINDOW_US <= self.window_us <= MAX_WINDOW_US
        &&& self.stall_us <= self.window_us
    }

    /// The stall that makes the trigger fire, in microseconds.
    pub closed spec fn stall(self) -> u64 {
        self.stall_us
    }

    /// The window it is counted in, in microseconds.
    pub closed spec fn window(self) -> u64 {
        self.window_us
    }

    /// Make a trigger that fires when tasks are fully stalled on memory for
    /// `stall` microseconds within any `window` microseconds.
    ///
    /// The kernel requires the window to be 500ms..=10s and the stall threshold
    /// not to exceed it.
    pub fn arm(stall: u128, window: u128) -> (out: Result<Self, ArmError>)
        ensures
            match out {
                Ok(trigger) => {
                    &&& MIN_WINDOW_US <= window <= MAX_WINDOW_US
                    &&& stall <= window
                    &&& trigger.stall() == stall
                    &&& trigger.window() == window
                },
                Err(ArmError::WindowOutOfRange) => !(MIN_WINDOW_US <= window <= MAX_WINDOW_US),
                Err(ArmError::StallAboveWindow) => MIN_WINDOW_US <= window <= MAX_WINDOW_US
                    && stall > window,
            },
    {
        if window < MIN_WINDOW_US as u128 || window > MAX_WINDOW_US as u128 {
            return Err(ArmError::WindowOutOfRange);
        }
        if stall > window {
            return Err(ArmError::StallAboveWindow);
        }
        Ok(Trigger { stall_us: stall as u64, window_us: window as u64 })
    }

    /// What is written to the PSI file to set the trigger: a stall and a window that the kernel
    /// takes.
    pub fn request(&self) -> (line: String)
        ensures
            MIN_WINDOW_US <= self.window() <= MAX_WINDOW_US,
            self.stall() <= self.window(),
            line@ == "full "@ + text::decimal(self.stall() as nat) + " "@ + text::decimal(
                self.window() as nat,
            ),
    {
        proof {
            use_type_invariant(self);
        }
        let mut line = "full ".to_owned();
        line.append(text::decimal_of(self.stall_us).as_str());
        line.append(" ");
        line.append(text::decimal_of(self.window_us).as_str());
        line
    }

    /// What became of waiting for the trigger.
    ///
    /// True if pressure crossed the threshold, false on timeout. An
    /// interrupted poll reports as a timeout so the caller simply re-evaluates.
    pub fn wait(&self, polled: Polled) -> (out: Result<bool, WaitError>)
        ensures
            out == if polled.rc < 0 {
                if polled.interrupted {
                    Ok::<bool, WaitError>(false)
                } else {
                    Err::<bool, WaitError>(WaitError::Os)
                }
            } else if polled.rc == 0 {
                Ok::<bool, WaitError>(false)
            } else if polled.revents & polled.error_bit != 0 {
                Err::<bool, WaitError>(WaitError::Trigger)
            } else {
                Ok::<bool, WaitError>(polled.revents & polled.fired_bit != 0)
            },
    {
        if polled.rc < 0 {
            if polled.interrupted {
                return Ok(false);
            }
            return Err(WaitError::Os);
        }
        if polled.rc == 0 {
            return Ok(false);
        }
        if polled.revents & polled.error_bit != 0 {
            return Err(WaitError::Trigger);
        }
        Ok(polled.revents & polled.fired_bit != 0)
    }
}

/// How many milliseconds `poll()` is asked to wait for: as many as were meant, or as many as it
/// takes.
pub open spec fn timeout_of(millis: nat) -> nat {
    if millis <= i32::MAX {
        millis
    } else {
        i32::MAX as nat
    }
}

/// The timeout that is handed to `poll()` for a wait of `millis` milliseconds.
pub fn poll_timeout(millis: u128) -> (timeout: i32)
    ensures
        timeout == timeout_of(millis as nat),
{
    if millis <= i32::MAX as u128 {
        millis as i32
    } else {
        i32::MAX
    }
}

} // verus!
