use hostguard::daemon::{
    default_config, help_text, mode_of, parse_args, temporary_name, version_text, wait_micros,
    Args, Invocation,
};
use hostguard::guardian::Mode;
use hostguard::systemd::watchdog_interval;

fn read(args: &[&str]) -> Result<Invocation, String> {
    let args: Vec<String> = args.iter().map(|a| a.to_string()).collect();
    parse_args(&args)
}

fn run(config: &str, once: bool) -> Result<Invocation, String> {
    Ok(Invocation::Run(Args { config: config.to_string(), once }))
}

#[test]
fn no_arguments_run_the_default_configuration() {
    assert_eq!(default_config(), "/etc/hostguard/config.json");
    assert_eq!(read(&[]), run("/etc/hostguard/config.json", false));
}

#[test]
fn arguments_choose_the_configuration_and_the_mode() {
    assert_eq!(read(&["--config", "/a"]), run("/a", false));
    assert_eq!(read(&["--once"]), run("/etc/hostguard/config.json", true));
    assert_eq!(read(&["--once", "--config", "/a", "--once"]), run("/a", true));
    assert_eq!(read(&["--config", "/a", "--config", "/b"]), run("/b", false));
    assert_eq!(read(&["--config", "--once"]), run("--once", false));
    assert_eq!(read(&["--config", ""]), run("", false));
}

#[test]
fn version_and_help_take_effect_where_they_stand() {
    assert_eq!(read(&["--version", "nonsense"]), Ok(Invocation::Version));
    assert_eq!(read(&["--once", "--help"]), Ok(Invocation::Help));
    assert_eq!(read(&["-h", "--version"]), Ok(Invocation::Help));
}

#[test]
fn what_is_not_understood_is_told() {
    assert_eq!(read(&["--config"]), Err("--config needs a path".to_string()));
    for bad in ["", "--Once", "x\"y", "--config=/a", "a\nb"] {
        assert_eq!(read(&[bad, "--version"]), Err(format!("unrecognised argument {bad:?}")));
    }
}

#[test]
fn version_and_help_are_printed() {
    assert_eq!(version_text("0.2.0"), "host-guardian 0.2.0\n");
    assert_eq!(
        help_text("0.2.0"),
        "host-guardian 0.2.0\n\
         \n\
         Usage: host-guardian [--config PATH] [--once]\n\
         \n\
         --config PATH  configuration file (default /etc/hostguard/config.json)\n\
         --once         evaluate once and exit; does not act\n\
         --version      print version and exit\n"
    );
}

#[test]
fn the_wait_ends_before_a_ping_is_due() {
    assert_eq!(wait_micros(30, None), 30_000_000);
    assert_eq!(wait_micros(30, Some(15_000_000)), 15_000_000);
    assert_eq!(wait_micros(30, Some(60_000_000)), 30_000_000);
    assert_eq!(wait_micros(30, Some(0)), 0);
    assert_eq!(wait_micros(u64::MAX, None), u64::MAX as u128 * 1_000_000);
    let ping = watchdog_interval(Some("20000000".to_string()));
    assert_eq!(wait_micros(30, ping), 10_000_000);
}

#[test]
fn one_evaluation_is_a_dry_run() {
    assert_eq!(mode_of(true), Mode::Dry);
    assert_eq!(mode_of(false), Mode::Live);
}

#[test]
fn a_file_is_first_written_under_a_hidden_name() {
    assert_eq!(temporary_name(Some("host-guardian.prom")), ".host-guardian.prom.tmp");
    assert_eq!(temporary_name(None), ".out.tmp");
}
