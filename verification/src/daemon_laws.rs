//! Laws of the daemon: what its command line asks for, how long it sleeps, and what it writes to.

use crate::daemon;
use crate::daemon::{Invocation, Meaning};
use crate::guardian::Mode;
use crate::systemd;
use crate::text;
use vstd::prelude::*;

verus! {

/// Whether a command line was read as a run with the configuration at `config`, of one evaluation
/// only if `once`.
pub open spec fn asks_to_run(
    out: Result<Invocation, String>,
    config: Seq<char>,
    once: bool,
) -> bool {
    out matches Ok(Invocation::Run(args)) && args.config@ == config && args.once == once
}

/// Whether `word` is none of the words that a command line may hold.
pub open spec fn unknown(word: Seq<char>) -> bool {
    &&& word != "--config"@
    &&& word != "--once"@
    &&& word != "--version"@
    &&& word != "--help"@
    &&& word != "-h"@
}

/// An empty command line asks to run with the configuration that is kept for the system.
pub proof fn an_empty_command_line_runs_as_usual(
    args: &Vec<String>,
    out: Result<Invocation, String>,
    usual: String,
)
    requires
        call_ensures(daemon::parse_args, (args,), out),
        call_ensures(daemon::default_config, (), usual),
    ensures
        args@.len() == 0 ==> asks_to_run(out, "/etc/hostguard/config.json"@, false),
        usual@ == "/etc/hostguard/config.json"@,
{
    if args@.len() == 0 {
        assert(text::texts(args@).len() == 0);
    }
}

/// Behind a command line that asks for a run, `--once` asks for one evaluation only, and
/// `--config` with a path for the configuration there, whatever was asked for before.
pub proof fn options_behind_a_run_change_it(
    before: &Vec<String>,
    run: Result<Invocation, String>,
    args: &Vec<String>,
    out: Result<Invocation, String>,
    path: Seq<char>,
)
    requires
        call_ensures(daemon::parse_args, (before,), run),
        call_ensures(daemon::parse_args, (args,), out),
        run matches Ok(Invocation::Run(_)),
    ensures
        ({
            let asked = run->Ok_0->Run_0;
            let words = text::texts(before@);
            let all = text::texts(args@);
            &&& all == words + seq!["--once"@] ==> asks_to_run(out, asked.config@, true)
            &&& all == words + seq!["--config"@, path] ==> asks_to_run(out, path, asked.once)
        }),
{
    let words = text::texts(before@);
    let all = text::texts(args@);
    let asked = run->Ok_0->Run_0;
    lemma_option_words();
    if all == words + seq!["--once"@] {
        lemma_behind_a_run(words, seq!["--once"@], daemon::default_config_path(), false);
        assert(seq!["--once"@].skip(1) == Seq::<Seq<char>>::empty());
        assert(daemon::meaning(Seq::empty(), asked.config@, true) == Meaning::Run(
            asked.config@,
            true,
        ));
    }
    if all == words + seq!["--config"@, path] {
        lemma_behind_a_run(words, seq!["--config"@, path], daemon::default_config_path(), false);
        assert(seq!["--config"@, path].skip(2) == Seq::<Seq<char>>::empty());
        assert(daemon::meaning(Seq::empty(), path, asked.once) == Meaning::Run(path, asked.once));
    }
}

/// Behind a command line that asks for a run, `--version`, `--help` and `-h` take effect whatever
/// follows; `--config` as the last word, and any unknown word, is an error that says so.
pub proof fn words_behind_a_run_end_it(
    before: &Vec<String>,
    run: Result<Invocation, String>,
    args: &Vec<String>,
    out: Result<Invocation, String>,
    word: Seq<char>,
    rest: Seq<Seq<char>>,
)
    requires
        call_ensures(daemon::parse_args, (before,), run),
        call_ensures(daemon::parse_args, (args,), out),
        run matches Ok(Invocation::Run(_)),
        text::texts(args@) == text::texts(before@) + (seq![word] + rest),
    ensures
        word == "--version"@ ==> out == Ok::<Invocation, String>(Invocation::Version),
        word == "--help"@ || word == "-h"@ ==> out == Ok::<Invocation, String>(Invocation::Help),
        word == "--config"@ && rest.len() == 0 ==> out is Err && out->Err_0@
            == "--config needs a path"@,
        unknown(word) ==> out is Err && out->Err_0@ == "unrecognised argument "@ + text::debug_text(
            word,
        ),
{
    lemma_option_words();
    lemma_behind_a_run(
        text::texts(before@),
        seq![word] + rest,
        daemon::default_config_path(),
        false,
    );
    assert((seq![word] + rest)[0] == word);
}

/// The words of the options differ from each other.
proof fn lemma_option_words()
    ensures
        "--config"@ != "--once"@,
        "--config"@ != "--version"@,
        "--config"@ != "--help"@,
        "--config"@ != "-h"@,
        "--once"@ != "--version"@,
        "--once"@ != "--help"@,
        "--once"@ != "-h"@,
        "--version"@ != "--help"@,
        "--version"@ != "-h"@,
{
    reveal_strlit("--config");
    reveal_strlit("--once");
    reveal_strlit("--version");
    reveal_strlit("--help");
    reveal_strlit("-h");
    assert("--config"@[2] == 'c');
    assert("--once"@[2] == 'o');
    assert("--version"@[2] == 'v');
    assert("--help"@[2] == 'h');
    assert("-h"@[1] == 'h');
    assert("--config"@[1] == '-' && "--once"@[1] == '-' && "--version"@[1] == '-');
}

/// What stands behind a command line that asks for a run is read on from that run.
proof fn lemma_behind_a_run(
    words: Seq<Seq<char>>,
    rest: Seq<Seq<char>>,
    config: Seq<char>,
    once: bool,
)
    requires
        daemon::meaning(words, config, once) is Run,
    ensures
        daemon::meaning(words + rest, config, once) == daemon::meaning(
            rest,
            daemon::meaning(words, config, once)->Run_0,
            daemon::meaning(words, config, once)->Run_1,
        ),
    decreases words.len(),
{
    let all = words + rest;
    if words.len() == 0 {
        assert(all == rest);
    } else if words[0] == "--config"@ {
        assert(all[0] == words[0] && all[1] == words[1]);
        assert(all.skip(2) == words.skip(2) + rest);
        lemma_behind_a_run(words.skip(2), rest, words[1], once);
    } else {
        assert(all[0] == words[0]);
        assert(all.skip(1) == words.skip(1) + rest);
        lemma_behind_a_run(words.skip(1), rest, config, true);
    }
}

/// What is printed for a version and for help names the program and its version; help tells each
/// option, and where the configuration is looked for.
pub proof fn version_and_help_are_printed(version: &str, short: String, long: String)
    requires
        call_ensures(daemon::version_text, (version,), short),
        call_ensures(daemon::help_text, (version,), long),
    ensures
        short@ == "host-guardian "@ + version@ + "\n"@,
        long@ == "host-guardian "@ + version@
            + "\n\nUsage: host-guardian [--config PATH] [--once]\n\n"@
            + "--config PATH  configuration file (default "@ + "/etc/hostguard/config.json"@
            + ")\n"@ + "--once         evaluate once and exit; does not act\n"@
            + "--version      print version and exit\n"@,
{
}

/// The daemon sleeps for its poll interval, or up to the next watchdog ping where that comes
/// first: as long as it can without passing either.
pub proof fn a_sleep_is_as_long_as_both_allow(
    poll_interval_sec: u64,
    ping_us: Option<u64>,
    micros: u128,
)
    requires
        call_ensures(daemon::wait_micros, (poll_interval_sec, ping_us), micros),
    ensures
        micros <= poll_interval_sec * 1000000,
        ping_us matches Some(ping) ==> micros <= ping,
        micros == poll_interval_sec * 1000000 || ping_us is Some && micros == ping_us->0,
{
}

/// With a watchdog, two sleeps of the daemon fit in the interval that systemd allows.
pub proof fn two_sleeps_fit_in_a_watchdog_interval(
    poll_interval_sec: u64,
    usec: Option<String>,
    ping: Option<u64>,
    micros: u128,
)
    requires
        call_ensures(systemd::watchdog_interval, (usec,), ping),
        call_ensures(daemon::wait_micros, (poll_interval_sec, ping), micros),
        ping is Some,
    ensures
        2 * micros <= text::number(usec->0@)->0,
{
}

/// A run is dry exactly where one evaluation is asked for.
pub proof fn one_evaluation_is_dry(once: bool, mode: Mode)
    requires
        call_ensures(daemon::mode_of, (once,), mode),
    ensures
        mode == Mode::Dry <==> once,
        mode == Mode::Live <==> !once,
{
}

/// A file is written under its own name, hidden by a leading dot and told from it by its end, so
/// that files of two names are never written to the same place.
pub proof fn a_file_is_written_aside(name: &str, named: String, unnamed: String)
    requires
        call_ensures(daemon::temporary_name, (Some(name),), named),
        call_ensures(daemon::temporary_name, (None,), unnamed),
    ensures
        named@ == "."@ + name@ + ".tmp"@,
        unnamed@ == ".out.tmp"@,
{
    reveal_strlit(".");
    reveal_strlit("out");
    reveal_strlit(".tmp");
    reveal_strlit(".out.tmp");
    assert("."@ + "out"@ + ".tmp"@ =~= ".out.tmp"@);
}

} // verus!
