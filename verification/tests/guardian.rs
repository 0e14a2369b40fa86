use hostguard::actions::{ActionPolicy, Budget};
use hostguard::config::{default_poll, default_samples, parse, Config};
use hostguard::gate::{Gate, Gated};
use hostguard::guardian::{
    evaluate, handle_emergency, run_once, shed_record, Evaluation, Mode, Readings, Stalled, Step,
};
use hostguard::incident::Incident;
use hostguard::mounts::{MountExpectation, MountVerdict};
use hostguard::percent::Percent;
use hostguard::pressure::{EmergencyThresholds, Pressure};

fn percent(x: f64) -> Percent {
    Percent { bits: x.to_bits() }
}

fn emergency_cfg(observe_only: bool) -> Config {
    let cfg = Config {
        schema_version: 1,
        observe_only,
        metrics_path: "/var/lib/host-guardian/textfile/host-guardian.prom".into(),
        incident_dir: "/var/log/host-guardian/incidents".into(),
        consecutive_samples: default_samples(),
        poll_interval_sec: default_poll(),
        memory: EmergencyThresholds {
            available_bytes: 8_589_934_592_u64,
            full_psi_percent: percent(10.0),
        },
        shed_units: vec!["a.service".to_string(), "b.service".to_string()],
        mount_expectations: Vec::new(),
        actions: ActionPolicy {
            cooldown_sec: 600,
            budget_window_sec: 3600,
            max_actions_per_window: 3,
        },
    };
    parse(Ok(cfg)).unwrap()
}

fn emergency_ev() -> Evaluation {
    Evaluation {
        pressure: Pressure {
            available_bytes: 1024,
            full_avg10_percent: percent(99.0),
        },
        percent_json: "99.0".to_string(),
        percent_fixed: "99.000000".to_string(),
        mounts: Vec::new(),
        unit_active: vec![("a.service".into(), true), ("b.service".into(), true)],
        errors: Vec::new(),
    }
}

fn calm_ev() -> Evaluation {
    let mut ev = emergency_ev();
    ev.pressure.full_avg10_percent = percent(0.0);
    ev
}

#[derive(Default)]
struct Recorded {
    slugs: Vec<String>,
    stopped: Vec<String>,
}

/// Drives one emergency cycle with both side effects captured.
fn drive(
    cfg: &Config,
    budget: &mut Budget,
    ev: &Evaluation,
    gated: Gated,
    t: u64,
    out: &mut Recorded,
) {
    for step in handle_emergency(cfg, budget, ev, gated, t, t) {
        match step {
            Step::Record { event, .. } => out.slugs.push(event),
            Step::Stop { unit } => {
                out.stopped.push(unit.clone());
                let (event, _) = shed_record(&unit, Ok(()), ev, t);
                out.slugs.push(event);
            }
        }
    }
}

/// The bug this exists to prevent: a sustained emergency recorded one file
/// per unit per cycle, so an armed PSI trigger could write ~1,800 an hour
/// into /var/log while the host was already short of memory.
#[test]
fn a_sustained_emergency_records_once_not_once_per_cycle() {
    let cfg = emergency_cfg(true);
    let ev = emergency_ev();
    let mut budget = Budget::new();
    let mut out = Recorded::default();
    drive(&cfg, &mut budget, &ev, Gated::Newly, 0, &mut out);
    for cycle in 1..20 {
        drive(&cfg, &mut budget, &ev, Gated::Still, cycle, &mut out);
    }
    assert_eq!(
        out.slugs,
        ["memory-emergency"],
        "observe-only recorded more than the onset over 20 cycles"
    );
}

#[test]
fn each_shed_unit_gets_its_own_record_name() {
    let cfg = emergency_cfg(false);
    let ev = emergency_ev();
    let mut budget = Budget::new();
    let mut out = Recorded::default();
    drive(&cfg, &mut budget, &ev, Gated::Newly, 0, &mut out);

    assert_eq!(out.stopped.len(), 2, "expected both units shed");
    let shed: Vec<&String> = out.slugs.iter().filter(|s| s.contains("service")).collect();
    assert_eq!(shed.len(), 2, "got {:?}", out.slugs);
    assert_ne!(shed[0], shed[1], "two units shared one record name");
}

#[test]
fn a_cleared_emergency_records_nothing() {
    let cfg = emergency_cfg(true);
    let ev = emergency_ev();
    let mut budget = Budget::new();
    let mut out = Recorded::default();
    drive(&cfg, &mut budget, &ev, Gated::No, 0, &mut out);
    assert!(out.slugs.is_empty());
    assert!(out.stopped.is_empty(), "stopped a unit with no emergency");
}

#[test]
fn an_emergency_is_recorded_before_units_are_shed() {
    let cfg = emergency_cfg(false);
    let mut ev = emergency_ev();
    ev.unit_active = vec![
        ("a.service".into(), false),
        ("b.service".into(), true),
        ("b.service".into(), true),
        ("c.service".into(), true),
    ];
    let mut budget = Budget::new();
    let steps = handle_emergency(&cfg, &mut budget, &ev, Gated::Newly, 17, 5000);
    assert_eq!(
        steps,
        [
            Step::Record {
                event: "memory-emergency".into(),
                incident: Incident::EmergencyBegan {
                    available_bytes: 1024,
                    full_psi_percent: "99.0".into(),
                    would_stop: None,
                    timestamp: 17,
                },
            },
            Step::Stop { unit: "b.service".into() },
            Step::Stop { unit: "c.service".into() },
        ]
    );
    assert_eq!(budget.actions_in_window(), 2);
}

#[test]
fn a_shed_unit_is_recorded_with_its_outcome() {
    let ev = emergency_ev();
    let (event, incident) = shed_record("a.service", Err("no".to_string()), &ev, 3);
    assert_eq!(event, "memory-emergency-a.service");
    assert_eq!(
        incident,
        Incident::EmergencyShed {
            unit: "a.service".into(),
            result: "failed: no".into(),
            available_bytes: 1024,
            full_psi_percent: "99.0".into(),
            timestamp: 3,
        }
    );
    let (_, incident) = shed_record("a.service", Ok(()), &ev, 3);
    assert!(matches!(incident, Incident::EmergencyShed { result, .. } if result == "shed"));
}

fn stops(steps: &[Step]) -> Vec<&str> {
    steps
        .iter()
        .filter_map(|s| match s {
            Step::Stop { unit } => Some(unit.as_str()),
            Step::Record { .. } => None,
        })
        .collect()
}

fn events(steps: &[Step]) -> Vec<&str> {
    steps
        .iter()
        .filter_map(|s| match s {
            Step::Record { event, .. } => Some(event.as_str()),
            Step::Stop { .. } => None,
        })
        .collect()
}

#[test]
fn an_emergency_must_persist_before_anything_is_done() {
    let cfg = emergency_cfg(false);
    let mut gate = Gate::default();
    let mut budget = Budget::new();
    let mut run = |ev: &Evaluation, mono: u64| {
        run_once(&cfg, &mut gate, &mut budget, ev, 100, mono, Mode::Live)
    };
    let first = run(&emergency_ev(), 1);
    assert!(first.steps.is_empty());
    assert!(first.metrics.contains("host_guardian_memory_emergency 0\n"));
    assert!(run(&calm_ev(), 2).steps.is_empty());
    assert!(run(&emergency_ev(), 3).steps.is_empty());
    let acting = run(&emergency_ev(), 4);
    assert_eq!(events(&acting.steps), ["memory-emergency"]);
    assert_eq!(stops(&acting.steps), ["a.service", "b.service"]);
    assert!(acting.metrics.contains("host_guardian_memory_emergency 1\n"));
    assert!(acting.metrics.contains("host_guardian_actions_in_window 2\n"));
    let still = run(&emergency_ev(), 5);
    assert!(still.steps.is_empty());
    assert!(still.metrics.contains("host_guardian_memory_emergency 1\n"));
}

#[test]
fn a_dry_run_takes_no_step() {
    let mut cfg = emergency_cfg(false);
    cfg.consecutive_samples = 1;
    let mut ev = emergency_ev();
    ev.mounts = vec![("/data".into(), MountVerdict::Missing)];
    let mut gate = Gate::default();
    let mut budget = Budget::new();
    let dry = run_once(&cfg, &mut gate, &mut budget, &ev, 100, 1, Mode::Dry);
    assert!(dry.steps.is_empty());
    assert_eq!(budget.actions_in_window(), 0);
    assert!(dry.metrics.contains("host_guardian_memory_emergency 1\n"));
    assert!(dry.metrics.contains("host_guardian_mount_ok{path=\"/data\"} 0\n"));
}

#[test]
fn observe_only_stops_nothing() {
    let mut cfg = emergency_cfg(true);
    cfg.consecutive_samples = 1;
    let mut gate = Gate::default();
    let mut budget = Budget::new();
    let run = run_once(&cfg, &mut gate, &mut budget, &emergency_ev(), 100, 1, Mode::Live);
    assert_eq!(events(&run.steps), ["memory-emergency"]);
    assert!(stops(&run.steps).is_empty());
    assert!(run.metrics.contains("host_guardian_observe_only 1\n"));
}

#[test]
fn a_bad_mount_is_recorded_once_per_streak_of_findings() {
    let cfg = emergency_cfg(false);
    let mut gate = Gate::default();
    let mut budget = Budget::new();
    let mut recorded: Vec<bool> = Vec::new();
    for verdict in [
        MountVerdict::Missing,
        MountVerdict::Missing,
        MountVerdict::Missing,
        MountVerdict::Verified,
        MountVerdict::Missing,
        MountVerdict::Missing,
    ] {
        let mut ev = calm_ev();
        ev.mounts = vec![("/data".into(), verdict)];
        let run = run_once(&cfg, &mut gate, &mut budget, &ev, 50, 1, Mode::Live);
        if !run.steps.is_empty() {
            assert_eq!(
                run.steps,
                [Step::Record {
                    event: "mount:/data".into(),
                    incident: Incident::MountIdentity {
                        path: "/data".into(),
                        verdict: "Missing".into(),
                        timestamp: 50,
                    },
                }]
            );
        }
        recorded.push(!run.steps.is_empty());
    }
    assert_eq!(recorded, [false, true, false, false, false, true]);
}

#[test]
fn the_time_of_day_does_not_reach_the_gate() {
    let cfg = emergency_cfg(false);
    let mut gate = Gate::default();
    let mut budget = Budget::new();
    run_once(&cfg, &mut gate, &mut budget, &emergency_ev(), u64::MAX, 1, Mode::Live);
    let run = run_once(&cfg, &mut gate, &mut budget, &emergency_ev(), 0, 2, Mode::Live);
    assert_eq!(stops(&run.steps), ["a.service", "b.service"]);
}

#[test]
fn records_of_mounts_come_first() {
    let mut cfg = emergency_cfg(false);
    cfg.consecutive_samples = 1;
    let mut ev = emergency_ev();
    ev.mounts = vec![
        ("/a".into(), MountVerdict::Missing),
        ("/b".into(), MountVerdict::Verified),
        ("/c".into(), MountVerdict::Missing),
    ];
    let mut gate = Gate::default();
    let mut budget = Budget::new();
    let run = run_once(&cfg, &mut gate, &mut budget, &ev, 100, 9, Mode::Live);
    assert_eq!(events(&run.steps), ["mount:/a", "mount:/c", "memory-emergency"]);
    assert_eq!(run.steps.len(), 5);
}

fn readings() -> Readings {
    Readings {
        meminfo: Ok("MemAvailable: 2 kB\n".to_string()),
        psi: Ok("full avg10=12.50 total=1\n".to_string()),
        psi_number: Some(Stalled {
            percent: percent(12.5),
            json: "12.5".to_string(),
            fixed: "12.500000".to_string(),
        }),
        mountinfo: Ok("25 0 253:1 / / rw - ext4 /dev/x rw\n".to_string()),
        unit_active: vec![true, false],
    }
}

fn watched_cfg() -> Config {
    let mut cfg = emergency_cfg(false);
    cfg.mount_expectations = vec![MountExpectation {
        path: "/".into(),
        source: "/dev/x".into(),
        fstype: "ext4".into(),
        root: "/".into(),
    }];
    cfg
}

#[test]
fn readings_come_to_an_evaluation() {
    let ev = evaluate(&watched_cfg(), &readings());
    assert_eq!(ev.pressure.available_bytes, 2048);
    assert_eq!(ev.pressure.full_avg10_percent, percent(12.5));
    assert_eq!(ev.percent_json, "12.5");
    assert_eq!(ev.percent_fixed, "12.500000");
    assert_eq!(ev.mounts, [("/".to_string(), MountVerdict::Verified)]);
    assert_eq!(
        ev.unit_active,
        [("a.service".to_string(), true), ("b.service".to_string(), false)]
    );
    assert!(ev.errors.is_empty());
}

#[test]
fn sensors_that_cannot_be_read_leave_errors_and_no_emergency() {
    let mut broken = readings();
    broken.meminfo = Err("No such file".to_string());
    broken.psi = Err("No such file".to_string());
    broken.psi_number = None;
    broken.mountinfo = Err("Permission denied".to_string());
    let ev = evaluate(&watched_cfg(), &broken);
    assert_eq!(ev.pressure.available_bytes, u64::MAX);
    assert_eq!(ev.pressure.full_avg10_percent, percent(0.0));
    assert_eq!(ev.percent_json, "0.0");
    assert_eq!(ev.percent_json, serde_json::to_string(&0.0f64).unwrap());
    assert_eq!(ev.percent_fixed, format!("{:.6}", 0.0f64));
    assert!(ev.mounts.is_empty());
    assert_eq!(
        ev.errors,
        [
            "/proc/meminfo: No such file",
            "/proc/pressure/memory: No such file",
            "/proc/self/mountinfo: Permission denied",
        ]
    );
    let mut gate = Gate::default();
    let mut budget = Budget::new();
    let run = run_once(&watched_cfg(), &mut gate, &mut budget, &ev, 1, 1, Mode::Live);
    assert!(run.metrics.contains("host_guardian_up 0\n"));
    assert!(run.metrics.contains("host_guardian_errors 3\n"));
}

#[test]
fn sensors_that_make_no_sense_leave_errors() {
    let mut odd = readings();
    odd.meminfo = Ok("MemFree: 1 kB".to_string());
    odd.psi = Ok("full avg10=x".to_string());
    odd.psi_number = None;
    odd.mountinfo = Ok("\nnonsense".to_string());
    let ev = evaluate(&watched_cfg(), &odd);
    assert_eq!(
        ev.errors,
        [
            "meminfo: no MemAvailable line",
            "pressure: avg10 value \"x\" is not a number",
            "mountinfo line 2: no ' - ' separator",
        ]
    );
}

#[test]
fn a_long_emergency_keeps_budget_and_cooldown() {
    let mut cfg = emergency_cfg(false);
    cfg.consecutive_samples = 1;
    cfg.actions = ActionPolicy {
        cooldown_sec: 50,
        budget_window_sec: 100,
        max_actions_per_window: 3,
    };
    let mut ev = emergency_ev();
    ev.unit_active = ["a", "b", "c", "d"]
        .iter()
        .map(|u| (format!("{u}.service"), true))
        .collect();
    let mut gate = Gate::default();
    let mut budget = Budget::new();
    let mut stopped: Vec<(String, u64)> = Vec::new();
    for mono in 1..1000u64 {
        let run = run_once(&cfg, &mut gate, &mut budget, &ev, 7, mono, Mode::Live);
        for unit in stops(&run.steps) {
            stopped.push((unit.to_string(), mono));
        }
    }
    assert_eq!(stopped[..3].iter().map(|s| s.0.as_str()).collect::<Vec<_>>(), [
        "a.service",
        "b.service",
        "c.service",
    ]);
    assert_eq!(stopped.len(), 30);
    for end in 0..1100u64 {
        let inside = stopped.iter().filter(|s| s.1 <= end && s.1 + 100 > end).count();
        assert!(inside <= 3, "{inside} stops in the window that ends at {end}");
    }
    for (i, a) in stopped.iter().enumerate() {
        for b in &stopped[i + 1..] {
            assert!(a.0 != b.0 || b.1 - a.1 >= 50, "{a:?} and {b:?}");
        }
    }
}

#[test]
fn a_replaced_volume_is_published_as_not_ok() {
    let mut replaced = readings();
    replaced.mountinfo = Ok(
        "25 0 253:1 / / rw - ext4 /dev/x rw\n26 25 0:31 / / rw - tmpfs tmpfs rw\n".to_string(),
    );
    let publish = |readings: &Readings| {
        let ev = evaluate(&watched_cfg(), readings);
        let mut gate = Gate::default();
        let mut budget = Budget::new();
        run_once(&watched_cfg(), &mut gate, &mut budget, &ev, 1, 1, Mode::Dry).metrics
    };
    let before = publish(&readings());
    assert!(before.contains("host_guardian_mount_ok{path=\"/\"} 1\n"));
    assert!(before.contains("host_guardian_mount_present{path=\"/\"} 1\n"));
    let after = publish(&replaced);
    assert!(after.contains("host_guardian_mount_ok{path=\"/\"} 0\n"));
    assert!(after.contains("host_guardian_mount_present{path=\"/\"} 1\n"));
}

#[test]
fn observe_only_names_what_it_would_have_stopped() {
    let would_stop = |cfg: &Config, budget: &mut Budget, ev: &Evaluation| {
        let steps = handle_emergency(cfg, budget, ev, Gated::Newly, 17, 5000);
        assert_eq!(steps.len(), 1);
        match steps.into_iter().next() {
            Some(Step::Record {
                event,
                incident: Incident::EmergencyBegan { would_stop, .. },
            }) => {
                assert_eq!(event, "memory-emergency");
                would_stop.unwrap()
            }
            other => panic!("unexpected {other:?}"),
        }
    };
    let mut cfg = emergency_cfg(true);
    let mut ev = emergency_ev();
    let mut budget = Budget::new();
    assert_eq!(would_stop(&cfg, &mut budget, &ev), ["a.service", "b.service"]);
    assert_eq!(budget.actions_in_window(), 0);

    // Inactive units, units that cool down and units beyond the budget would not be stopped.
    ev.unit_active = ["a", "b", "c", "c", "d", "e"]
        .iter()
        .map(|u| (format!("{u}.service"), *u != "b"))
        .collect();
    budget.try_admit("a.service", 4999, &cfg.actions, false);
    assert_eq!(would_stop(&cfg, &mut budget, &ev), ["c.service", "d.service"]);
    assert_eq!(budget.actions_in_window(), 1);
    cfg.actions.max_actions_per_window = 0;
    assert!(would_stop(&cfg, &mut budget, &ev).is_empty());
}

#[test]
fn what_observe_only_names_is_what_the_live_path_stops() {
    let ev = emergency_ev();
    let live = handle_emergency(&emergency_cfg(false), &mut Budget::new(), &ev, Gated::Newly, 1, 0);
    let observed =
        handle_emergency(&emergency_cfg(true), &mut Budget::new(), &ev, Gated::Newly, 1, 0);
    match &observed[0] {
        Step::Record {
            incident: Incident::EmergencyBegan { would_stop: Some(units), .. },
            ..
        } => assert_eq!(units.iter().map(String::as_str).collect::<Vec<_>>(), stops(&live)),
        other => panic!("unexpected {other:?}"),
    }
}
