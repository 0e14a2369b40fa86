//! The daemon around the guardian: its command line, how long it sleeps, and the
//! files it writes.

use crate::actions::Memory;
use crate::config::Config;
use crate::guardian;
use crate::guardian::{Evaluation, Mode, StepText};
use crate::psi;
use crate::systemd;
use crate::text;
use vstd::prelude::*;

verus! {

/// Where the configuration is, and whether to evaluate it once only.
#[derive(Debug, PartialEq, Eq)]
pub struct Args {
    pub config: String,
    pub once: bool,
}

/// What a command line asks for.
#[derive(Debug, PartialEq, Eq)]
pub enum Invocation {
    Run(Args),
    Version,
    Help,
}

/// What a command line comes to.
pub enum Meaning {
    Run(Seq<char>, bool),
    Version,
    Help,
    Unclear(Seq<char>),
}

/// Where the configuration is looked for.
pub open spec fn default_config_path() -> Seq<char> {
    "/etc/hostguard/config.json"@
}

/// What the rest of a command line comes to, if what came before asks for the configuration at
/// `config`, and for one evaluation only if `once`. Version and help take effect where they
/// stand.
pub open spec fn meaning(args: Seq<Seq<char>>, config: Seq<char>, once: bool) -> Meaning
    decreases args.len(),
{
    if args.len() == 0 {
        Meaning::Run(config, once)
    } else if args[0] == "--config"@ {
        if args.len() == 1 {
            Meaning::Unclear("--config needs a path"@)
        } else {
            meaning(args.skip(2), args[1], once)
        }
    } else if args[0] == "--once"@ {
        meaning(args.skip(1), config, true)
    } else if args[0] == "--version"@ {
        Meaning::Version
    } else if args[0] == "--help"@ || args[0] == "-h"@ {
        Meaning::Help
    } else {
        Meaning::Unclear("unrecognised argument "@ + text::debug_text(args[0]))
    }
}

/// Reads the command line, without the name of the program.
pub fn parse_args(args: &Vec<String>) -> (out: Result<Invocation, String>)
    ensures
        match meaning(text::texts(args@), default_config_path(), false) {
            Meaning::Run(config, once) => out matches Ok(Invocation::Run(a)) && a.config@ == config
                && a.once == once,
            Meaning::Version => out == Ok::<Invocation, String>(Invocation::Version),
            Meaning::Help => out == Ok::<Invocation, String>(Invocation::Help),
            Meaning::Unclear(why) => out matches Err(e) && e@ == why,
        },
{
    let ghost all = text::texts(args@);
    let mut config = default_config();
    let mut once = false;
    let mut i: usize = 0;
    assert(all.skip(0) == all);
    while i < args.len()
        invariant
            i <= args.len(),
            all == text::texts(args@),
            meaning(all, default_config_path(), false) == meaning(all.skip(i as int), config@, once),
        decreases args.len() - i,
    {
        let ghost rest = all.skip(i as int);
        let arg = args[i].as_str();
        assert(rest[0] == arg@);
        if text::same(arg, "--config") {
            if i + 1 == args.len() {
                return Err("--config needs a path".to_owned());
            }
            assert(rest[1] == args@[i + 1]@);
            assert(rest.skip(2) == all.skip(i + 2));
            config = args[i + 1].clone();
            i += 2;
        } else if text::same(arg, "--once") {
            assert(rest.skip(1) == all.skip(i + 1));
            once = true;
            i += 1;
        } else if text::same(arg, "--version") {
            return Ok(Invocation::Version);
        } else if text::same(arg, "--help") || text::same(arg, "-h") {
            return Ok(Invocation::Help);
        } else {
            let mut why = "unrecognised argument ".to_owned();
            why.append(text::quoted(arg).as_str());
            return Err(why);
        }
    }
    assert(all.skip(i as int) == Seq::<Seq<char>>::empty());
    Ok(Invocation::Run(Args { config, once }))
}

/// Where the configuration is looked for.
pub fn default_config() -> (path: String)
    ensures
        path@ == default_config_path(),
{
    "/etc/hostguard/config.json".to_owned()
}

/// What is printed for `--version`.
pub fn version_text(version: &str) -> (out: String)
    ensures
        out@ == "host-guardian "@ + version@ + "\n"@,
{
    let mut out = "host-guardian ".to_owned();
    out.append(version);
    out.append("\n");
    out
}

/// What is printed for `--help`.
pub fn help_text(version: &str) -> (out: String)
    ensures
        out@ == "host-guardian "@ + version@
            + "\n\nUsage: host-guardian [--config PATH] [--once]\n\n"@
            + "--config PATH  configuration file (default "@ + default_config_path() + ")\n"@
            + "--once         evaluate once and exit; does not act\n"@
            + "--version      print version and exit\n"@,
{
    let mut out = "host-guardian ".to_owned();
    out.append(version);
    out.append("\n\nUsage: host-guardian [--config PATH] [--once]\n\n");
    out.append("--config PATH  configuration file (default ");
    out.append(default_config().as_str());
    out.append(")\n");
    out.append("--once         evaluate once and exit; does not act\n");
    out.append("--version      print version and exit\n");
    out
}

/// How many microseconds lie between evaluations: the poll interval, or the interval between
/// watchdog pings if that is shorter.
pub open spec fn wait_between(poll_interval_sec: u64, ping_us: Option<u64>) -> nat {
    let interval = poll_interval_sec as nat * 1_000_000;
    match ping_us {
        Some(ping) if ping < interval => ping as nat,
        _ => interval,
    }
}

/// Says how many microseconds to sleep between evaluations. Never past a watchdog ping, or
/// systemd concludes we are wedged.
pub fn wait_micros(poll_interval_sec: u64, ping_us: Option<u64>) -> (micros: u128)
    ensures
        micros == wait_between(poll_interval_sec, ping_us),
{
    let interval: u128 = poll_interval_sec as u128 * 1_000_000;
    match ping_us {
        Some(ping) => {
            if (ping as u128) < interval {
                ping as u128
            } else {
                interval
            }
        },
        None => interval,
    }
}

/// The daemon never sleeps past a watchdog ping, nor past its poll interval: neither the wait
/// itself nor the timeout in milliseconds that stands for it is longer than either. A ping comes
/// at half of what systemd allows.
pub proof fn never_sleeps_past_a_ping(poll_interval_sec: u64, usec: Option<String>)
    ensures
        ({
            let wait = wait_between(poll_interval_sec, systemd::ping_interval(usec));
            &&& wait <= poll_interval_sec as nat * 1_000_000
            &&& psi::timeout_of(wait / 1000) * 1000 <= wait
            &&& systemd::ping_interval(usec) matches Some(ping) ==> wait <= ping
            &&& systemd::ping_interval(usec) is Some ==> 2 * wait <= text::number(usec->0@)->0
        }),
{
}

/// How a run is made: dry where only one evaluation is asked for.
pub open spec fn mode(once: bool) -> Mode {
    if once {
        Mode::Dry
    } else {
        Mode::Live
    }
}

/// Says how to make a run.
pub fn mode_of(once: bool) -> (out: Mode)
    ensures
        out == mode(once),
{
    if once {
        Mode::Dry
    } else {
        Mode::Live
    }
}

/// Asked to evaluate once, the daemon does not act: whatever it finds, it takes no step, and its
/// budget is as before.
pub proof fn once_does_not_act(
    cfg: Config,
    counters: Map<Seq<char>, u32>,
    memory: Memory,
    ev: Evaluation,
    now: u64,
    mono: u64,
)
    ensures
        guardian::run_plan(cfg, counters, memory, ev, now, mono, mode(true)) == (
            Seq::<StepText>::empty(),
            memory,
        ),
{
}

/// The name of the file that is written before it is renamed: hidden, and not the one that is read.
pub open spec fn hidden_name(file_name: Seq<char>) -> Seq<char> {
    "."@ + file_name + ".tmp"@
}

/// The name of the file that is written before it is renamed to `file_name`, so that a reader
/// never observes a half-written file. A name that is not text is replaced by `out`.
pub fn temporary_name(file_name: Option<&str>) -> (out: String)
    ensures
        out@ == hidden_name(
            match file_name {
                Some(name) => name@,
                None => "out"@,
            },
        ),
{
    let mut out = ".".to_owned();
    match file_name {
        Some(name) => {
            out.append(name);
        },
        None => {
            out.append("out");
        },
    }
    out.append(".tmp");
    out
}

/// Writing a file before renaming it never touches the file itself, nor, for two files, one that
/// both would write.
pub proof fn temporary_files_are_apart(a: Seq<char>, b: Seq<char>)
    ensures
        hidden_name(a) != a,
        hidden_name(a) == hidden_name(b) ==> a == b,
{
    reveal_strlit(".");
    reveal_strlit(".tmp");
    assert(hidden_name(a).len() == a.len() + 5);
    assert(hidden_name(b).len() == b.len() + 5);
    assert(hidden_name(a).subrange(1, a.len() + 1int) == a);
    assert(hidden_name(b).subrange(1, b.len() + 1int) == b);
}

} // verus!
