use hostguard::psi::{
    poll_timeout, ArmError, Polled, Trigger, WaitError, STALL_US, WINDOW_US,
};
use std::time::Duration;

fn arm(stall: Duration, window: Duration) -> Result<Trigger, ArmError> {
    Trigger::arm(stall.as_micros(), window.as_micros())
}

#[test]
fn rejects_a_window_outside_the_kernel_range() {
    for bad in [Duration::from_millis(100), Duration::from_secs(30)] {
        let e = arm(Duration::from_millis(50), bad);
        assert!(e.is_err(), "accepted out-of-range window {bad:?}");
    }
}

#[test]
fn rejects_a_stall_longer_than_its_window() {
    let e = arm(Duration::from_secs(5), Duration::from_secs(1));
    assert!(e.is_err());
}

#[test]
fn the_ends_of_the_kernel_range_are_accepted() {
    assert!(arm(Duration::from_millis(500), Duration::from_millis(500)).is_ok());
    assert!(arm(Duration::ZERO, Duration::from_secs(10)).is_ok());
    assert!(Trigger::arm(0, 499_999).is_err());
    assert!(Trigger::arm(0, 10_000_001).is_err());
    assert!(arm(Duration::MAX, Duration::MAX).is_err());
    assert!(Trigger::arm(u128::MAX, 1_000_000).is_err());
}

#[test]
fn each_refused_trigger_is_told() {
    let window = Trigger::arm(9_000_000_000, 100_000).err().unwrap();
    assert_eq!(window, ArmError::WindowOutOfRange);
    assert_eq!(window.message(), "PSI window must be between 500ms and 10s");
    let stall = Trigger::arm(2_000_001, 2_000_000).err().unwrap();
    assert_eq!(stall, ArmError::StallAboveWindow);
    assert_eq!(stall.message(), "PSI stall threshold cannot exceed the window");
}

#[test]
fn the_trigger_asks_for_full_stalls() {
    let trigger = Trigger::arm(STALL_US, WINDOW_US).ok().unwrap();
    assert_eq!(trigger.request(), "full 150000 2000000");
    assert_eq!(Trigger::arm(0, 500_000).ok().unwrap().request(), "full 0 500000");
}

fn waited(rc: i32, interrupted: bool, revents: i16) -> Result<bool, WaitError> {
    let trigger = Trigger::arm(STALL_US, WINDOW_US).ok().unwrap();
    trigger.wait(Polled {
        rc,
        interrupted,
        revents,
        fired_bit: libc::POLLPRI,
        error_bit: libc::POLLERR,
    })
}

#[test]
fn waiting_tells_a_fired_trigger_from_a_timeout() {
    assert_eq!(waited(1, false, libc::POLLPRI), Ok(true));
    assert_eq!(waited(0, false, 0), Ok(false));
    assert_eq!(waited(0, false, libc::POLLPRI), Ok(false));
    assert_eq!(waited(1, false, libc::POLLIN), Ok(false));
    assert_eq!(waited(-1, true, 0), Ok(false));
}

#[test]
fn waiting_tells_its_failures() {
    assert_eq!(waited(-1, false, 0), Err(WaitError::Os));
    assert_eq!(waited(1, false, libc::POLLPRI | libc::POLLERR), Err(WaitError::Trigger));
    assert_eq!(WaitError::trigger_message(), "PSI trigger returned POLLERR");
}

#[test]
fn a_long_wait_is_cut_to_what_poll_takes() {
    assert_eq!(poll_timeout(0), 0);
    assert_eq!(poll_timeout(30_000), 30_000);
    assert_eq!(poll_timeout(2_147_483_647), i32::MAX);
    assert_eq!(poll_timeout(2_147_483_648), i32::MAX);
    assert_eq!(poll_timeout(u128::MAX), i32::MAX);
}
