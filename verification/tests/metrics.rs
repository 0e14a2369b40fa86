use hostguard::metrics::{escape, render, Snapshot};
use hostguard::mounts::{MountIdentity, MountVerdict};

fn snapshot(mounts: &[(String, MountVerdict)], units: &[(String, bool)]) -> String {
    let percent = format!("{:.6}", 0.0f64);
    render(&Snapshot {
        up: true,
        observe_only: false,
        timestamp: 1_700_000_000,
        errors: 0,
        available_bytes: 51_723_010_048,
        full_psi_percent: &percent,
        emergency_active: false,
        actions_in_window: 0,
        mounts,
        unit_active: units,
    })
}

#[test]
fn every_metric_line_is_key_space_value() {
    let out = snapshot(
        &[("/".into(), MountVerdict::Verified)],
        &[("a.service".into(), true)],
    );
    for line in out.lines().filter(|l| !l.starts_with('#') && !l.is_empty()) {
        let fields: Vec<&str> = line.rsplitn(2, ' ').collect();
        assert_eq!(fields.len(), 2, "unparseable exposition line: {line}");
        assert!(
            fields[0].parse::<f64>().is_ok(),
            "value is not a number: {line}"
        );
    }
}

#[test]
fn mount_mismatch_reports_present_but_not_ok() {
    let mounts = vec![(
        "/tmp".to_string(),
        MountVerdict::Mismatch {
            actual: MountIdentity {
                source: "tmpfs".into(),
                fstype: "tmpfs".into(),
                root: "/".into(),
            },
        },
    )];
    let out = snapshot(&mounts, &[]);
    assert!(out.contains("host_guardian_mount_ok{path=\"/tmp\"} 0"));
    assert!(out.contains("host_guardian_mount_present{path=\"/tmp\"} 1"));
}

#[test]
fn missing_mount_reports_absent_and_not_ok() {
    let mounts = vec![("/data".to_string(), MountVerdict::Missing)];
    let out = snapshot(&mounts, &[]);
    assert!(out.contains("host_guardian_mount_ok{path=\"/data\"} 0"));
    assert!(out.contains("host_guardian_mount_present{path=\"/data\"} 0"));
}

#[test]
fn label_values_with_quotes_are_escaped() {
    let mounts = vec![(r#"/od"d\path"#.to_string(), MountVerdict::Verified)];
    let out = snapshot(&mounts, &[]);
    let line = out
        .lines()
        .find(|l| l.starts_with("host_guardian_mount_ok{"))
        .unwrap();
    assert!(line.contains(r#"\""#), "quote not escaped: {line}");
    assert!(line.contains(r"\\"), "backslash not escaped: {line}");
    assert_eq!(line.matches('"').count() - line.matches(r#"\""#).count(), 2);
}

#[test]
fn empty_mount_and_unit_lists_still_render_valid_output() {
    let out = snapshot(&[], &[]);
    assert!(out.contains("host_guardian_up 1"));
    assert!(out.ends_with('\n'));
}

#[test]
fn a_snapshot_is_published_line_by_line() {
    let out = render(&Snapshot {
        up: false,
        observe_only: true,
        timestamp: 1_700_000_001,
        errors: 2,
        available_bytes: 0,
        full_psi_percent: "12.345679",
        emergency_active: true,
        actions_in_window: 3,
        mounts: &[
            ("/".into(), MountVerdict::Verified),
            ("/a\nb".into(), MountVerdict::Missing),
        ],
        unit_active: &[("a.service".into(), true), ("b.service".into(), false)],
    });
    assert_eq!(
        out,
        "# HELP host_guardian_up Whether the last evaluation completed without errors.\n\
         # TYPE host_guardian_up gauge\n\
         host_guardian_up 0\n\
         # TYPE host_guardian_observe_only gauge\n\
         host_guardian_observe_only 1\n\
         # TYPE host_guardian_last_run_timestamp_seconds gauge\n\
         host_guardian_last_run_timestamp_seconds 1700000001\n\
         # TYPE host_guardian_errors gauge\n\
         host_guardian_errors 2\n\
         # TYPE host_guardian_memory_available_bytes gauge\n\
         host_guardian_memory_available_bytes 0\n\
         # TYPE host_guardian_memory_full_psi_percent gauge\n\
         host_guardian_memory_full_psi_percent 12.345679\n\
         # TYPE host_guardian_memory_emergency gauge\n\
         host_guardian_memory_emergency 1\n\
         # TYPE host_guardian_actions_in_window gauge\n\
         host_guardian_actions_in_window 3\n\
         # HELP host_guardian_mount_ok Whether a mount matches its expected identity.\n\
         # TYPE host_guardian_mount_ok gauge\n\
         host_guardian_mount_ok{path=\"/\"} 1\n\
         host_guardian_mount_ok{path=\"/a\\nb\"} 0\n\
         # TYPE host_guardian_mount_present gauge\n\
         host_guardian_mount_present{path=\"/\"} 1\n\
         host_guardian_mount_present{path=\"/a\\nb\"} 0\n\
         # TYPE host_guardian_unit_active gauge\n\
         host_guardian_unit_active{unit=\"a.service\"} 1\n\
         host_guardian_unit_active{unit=\"b.service\"} 0\n"
    );
}

#[test]
fn label_values_are_escaped_character_by_character() {
    assert_eq!(escape("plain é"), "plain é");
    assert_eq!(escape("a\\b\"c\nd"), "a\\\\b\\\"c\\nd");
    assert_eq!(escape("\\n"), "\\\\n");
    assert_eq!(escape(""), "");
}

#[test]
fn an_odd_path_takes_no_other_metric_with_it() {
    let odd = "a\n# TYPE x \"} 1\nhost_guardian_up 0";
    let plain = snapshot(&[("/x".into(), MountVerdict::Missing)], &[]);
    let out = snapshot(&[(odd.to_string(), MountVerdict::Missing)], &[]);
    assert_eq!(out.lines().count(), plain.lines().count());
    assert_eq!(out.lines().filter(|l| l.starts_with("host_guardian_up")).count(), 1);
}
