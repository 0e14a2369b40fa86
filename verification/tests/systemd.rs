use hostguard::systemd::{
    is_active, is_active_args, notify, notify_ready, ping_watchdog, stop, stop_args, systemctl,
    timeout_message, watchdog_interval, Finished, Watch,
};

fn finished(success: bool, stderr: &[u8]) -> Result<Finished, String> {
    Ok(Finished {
        success,
        status: "exit status: 5".to_string(),
        stderr: stderr.to_vec(),
    })
}

#[test]
fn without_a_socket_nothing_is_sent() {
    assert_eq!(notify(None, "READY=1"), None);
    assert_eq!(notify(Some(String::new()), "READY=1"), None);
    assert_eq!(notify_ready(None), None);
    assert_eq!(ping_watchdog(Some(String::new())), None);
}

#[test]
fn a_notification_names_its_socket_and_state() {
    let sent = notify(Some("/run/systemd/notify".to_string()), "STATUS=ok").unwrap();
    assert_eq!(sent.path, "/run/systemd/notify");
    assert_eq!(sent.state, "STATUS=ok");
}

#[test]
fn a_leading_at_sign_is_an_abstract_socket() {
    let sent = notify(Some("@/org/x@y".to_string()), "").unwrap();
    assert_eq!(sent.path, "\0/org/x@y");
    assert_eq!(notify(Some("@".to_string()), "").unwrap().path, "\0");
    assert_eq!(notify(Some("a@b".to_string()), "").unwrap().path, "a@b");
}

#[test]
fn readiness_and_watchdog_have_their_states() {
    let address = || Some("/s".to_string());
    assert_eq!(notify_ready(address()).unwrap().state, "READY=1");
    assert_eq!(ping_watchdog(address()).unwrap().state, "WATCHDOG=1");
    assert_eq!(ping_watchdog(address()).unwrap().path, "/s");
}

#[test]
fn the_watchdog_is_pinged_at_half_its_interval() {
    let interval = |s: &str| watchdog_interval(Some(s.to_string()));
    assert_eq!(interval("30000000"), Some(15_000_000));
    assert_eq!(interval("7"), Some(3));
    assert_eq!(interval("1"), Some(0));
    assert_eq!(interval("18446744073709551615"), Some(u64::MAX / 2));
    assert_eq!(interval("0"), None);
    assert_eq!(interval(""), None);
    assert_eq!(interval(" 5"), None);
    assert_eq!(interval("18446744073709551616"), None);
    assert_eq!(watchdog_interval(None), None);
}

#[test]
fn a_unit_is_the_one_operand() {
    assert_eq!(is_active_args("-M.service"), ["is-active", "--quiet", "--", "-M.service"]);
    assert_eq!(stop_args("a.service"), ["stop", "--", "a.service"]);
}

#[test]
fn systemctl_is_killed_once_it_outlives_its_timeout() {
    assert_eq!(systemctl(true, 5, 10), Watch::Collect);
    assert_eq!(systemctl(true, 10, 10), Watch::Collect);
    assert_eq!(systemctl(false, 9, 10), Watch::Sleep);
    assert_eq!(systemctl(false, 10, 10), Watch::Kill);
    assert_eq!(systemctl(false, 11, 10), Watch::Kill);
    assert_eq!(timeout_message(), "systemctl exceeded its timeout");
}

#[test]
fn a_unit_is_active_only_where_systemctl_says_so() {
    assert!(is_active(&finished(true, b"")));
    assert!(!is_active(&finished(false, b"")));
    assert!(!is_active(&Err("no such file".to_string())));
}

#[test]
fn a_failed_stop_says_why() {
    assert_eq!(stop(&finished(true, b"warning")), Ok(()));
    assert_eq!(
        stop(&finished(false, b" \n Unit x not loaded.\t\n")),
        Err("Unit x not loaded.".to_string())
    );
    assert_eq!(
        stop(&finished(false, b" \n")),
        Err("systemctl stop exited exit status: 5".to_string())
    );
    assert_eq!(stop(&finished(false, b"bad \xff byte\n")), Err("bad \u{fffd} byte".to_string()));
    assert_eq!(stop(&Err(timeout_message())), Err("systemctl exceeded its timeout".to_string()));
}
