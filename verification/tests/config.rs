use hostguard::actions::ActionPolicy;
use hostguard::config::{
    default_poll, default_samples, is_absolute, is_safe_unit, parse, Config, ConfigError,
    SCHEMA_VERSION,
};
use hostguard::mounts::{default_root, MountExpectation};
use hostguard::percent::Percent;
use hostguard::pressure::EmergencyThresholds;

fn percent(x: f64) -> Percent {
    Percent { bits: x.to_bits() }
}

fn base() -> Config {
    Config {
        schema_version: 1,
        observe_only: false,
        metrics_path: "/var/lib/hostguard/textfile/hostguard.prom".into(),
        incident_dir: "/var/log/hostguard/incidents".into(),
        consecutive_samples: default_samples(),
        poll_interval_sec: default_poll(),
        memory: EmergencyThresholds {
            available_bytes: 8_589_934_592_u64,
            full_psi_percent: percent(10.0),
        },
        shed_units: vec!["code-server.service".to_string()],
        mount_expectations: vec![MountExpectation {
            path: "/".into(),
            source: "/dev/mapper/vg--root".into(),
            fstype: "ext4".into(),
            root: "/".into(),
        }],
        actions: ActionPolicy {
            cooldown_sec: 600,
            budget_window_sec: 3600,
            max_actions_per_window: 3,
        },
    }
}

fn refusal(cfg: Config) -> String {
    match parse(Ok(cfg)) {
        Err(ConfigError::Invalid(reason)) => reason,
        Err(ConfigError::Parse(reason)) => panic!("not a matter of JSON: {reason}"),
        Ok(_) => panic!("accepted"),
    }
}

#[test]
fn accepts_a_representative_config() {
    let c = parse(Ok(base())).unwrap();
    assert_eq!(c.shed_units, ["code-server.service"]);
    assert_eq!(c.consecutive_samples, 2, "default not applied");
    assert!(!c.observe_only);
}

#[test]
fn rejects_a_future_schema_rather_than_guessing() {
    let mut v = base();
    v.schema_version = 2;
    assert!(parse(Ok(v)).is_err());
}

#[test]
fn rejects_shell_metacharacters_in_unit_names() {
    for bad in [
        "code-server.service; rm -rf /",
        "$(reboot).service",
        "a b.service",
        "../../etc/passwd.service",
        "-M.service",
        "-Hfoo.service",
    ] {
        let mut v = base();
        v.shed_units = vec![bad.to_string()];
        assert!(parse(Ok(v)).is_err(), "accepted dangerous unit {bad:?}");
    }
}

#[test]
fn rejects_non_service_units() {
    let mut v = base();
    v.shed_units = vec!["something.timer".to_string()];
    assert!(parse(Ok(v)).is_err());
}

#[test]
fn accepts_templated_and_hyphenated_service_names() {
    let mut v = base();
    v.shed_units = vec!["systemd-nspawn@eda-k3s.service".to_string()];
    assert!(parse(Ok(v)).is_ok());
}

#[test]
fn rejects_zero_consecutive_samples() {
    let mut v = base();
    v.consecutive_samples = 0;
    assert!(parse(Ok(v)).is_err());
}

#[test]
fn rejects_relative_paths() {
    let mut v = base();
    v.metrics_path = "relative/path.prom".into();
    assert!(parse(Ok(v)).is_err());

    let mut v = base();
    v.mount_expectations[0].path = "relative".into();
    assert!(parse(Ok(v)).is_err());
}

#[test]
fn rejects_out_of_range_psi_percent() {
    let mut v = base();
    v.memory.full_psi_percent = percent(150.0);
    assert!(parse(Ok(v)).is_err());
}

#[test]
fn empty_shed_and_mount_lists_are_valid() {
    let mut v = base();
    v.shed_units = Vec::new();
    v.mount_expectations = Vec::new();
    assert!(parse(Ok(v)).is_ok(), "a sensing-only install must be allowed");
}

#[test]
fn defaults_are_those_of_the_format() {
    assert_eq!(SCHEMA_VERSION, 1);
    assert_eq!(default_samples(), 2);
    assert_eq!(default_poll(), 30);
    assert_eq!(default_root(), "/");
}

#[test]
fn each_refusal_says_what_is_wrong() {
    let mut v = base();
    v.schema_version = 7;
    assert_eq!(refusal(v), "schema_version 7 is not supported (expected 1)");

    let mut v = base();
    v.consecutive_samples = 0;
    assert_eq!(
        refusal(v),
        "consecutive_samples must be at least 1, or every transient spike acts"
    );

    let mut v = base();
    v.poll_interval_sec = 0;
    assert_eq!(refusal(v), "poll_interval_sec must be at least 1");

    let mut v = base();
    v.memory.full_psi_percent = percent(-0.5);
    assert_eq!(refusal(v), "memory.full_psi_percent must be a percentage between 0 and 100");

    let mut v = base();
    v.incident_dir = "incidents".into();
    assert_eq!(refusal(v), "metrics_path and incident_dir must be absolute");
}

#[test]
fn a_refused_name_is_quoted() {
    for bad in ["a b.service", "tab\t.service", "quote\".service", "é.service", "new\n.service", ""] {
        let mut v = base();
        v.shed_units = vec!["ok.service".to_string(), bad.to_string()];
        assert_eq!(
            refusal(v),
            format!("shed_units entry {bad:?} must be a plain *.service name")
        );
    }
    let mut v = base();
    v.mount_expectations[0].path = "da\"ta\\x".into();
    assert_eq!(refusal(v), format!("mount_expectations path {:?} must be absolute", "da\"ta\\x"));
}

#[test]
fn the_first_fault_is_told() {
    let mut v = base();
    v.schema_version = 2;
    v.consecutive_samples = 0;
    v.shed_units = vec!["x".to_string()];
    assert_eq!(refusal(v), "schema_version 2 is not supported (expected 1)");
}

#[test]
fn config_errors_read_as_sentences() {
    let error = parse(Err("expected value at line 1 column 1".to_string())).unwrap_err();
    assert_eq!(error.message(), "config is not valid JSON: expected value at line 1 column 1");
    let mut v = base();
    v.poll_interval_sec = 0;
    let error = parse(Ok(v)).unwrap_err();
    assert_eq!(error.message(), "config is invalid: poll_interval_sec must be at least 1");
}

#[test]
fn the_ends_of_the_percentage_range_are_accepted() {
    for ok in [0.0, -0.0, 100.0, 1e-300] {
        let mut v = base();
        v.memory.full_psi_percent = percent(ok);
        assert!(parse(Ok(v)).is_ok(), "refused {ok}");
    }
    for bad in [100.00000000000001, -1e-300, f64::INFINITY, f64::NEG_INFINITY] {
        let mut v = base();
        v.memory.full_psi_percent = percent(bad);
        assert!(parse(Ok(v)).is_err(), "accepted {bad}");
    }
}

#[test]
fn unit_names_have_a_longest() {
    let longest = format!("{}.service", "a".repeat(247));
    assert_eq!(longest.len(), 255);
    assert!(is_safe_unit(&longest));
    assert!(!is_safe_unit(&format!("a{longest}")));
    assert!(is_safe_unit(".service"));
    assert!(!is_safe_unit("service"));
    assert!(!is_safe_unit(""));
    assert!(is_safe_unit("a_b:c@d-e.f.service"));
}

#[test]
fn a_path_is_absolute_from_the_root() {
    assert!(is_absolute("/"));
    assert!(is_absolute("/a"));
    assert!(!is_absolute(""));
    assert!(!is_absolute("a/b"));
}
