//! Laws of the configuration: which ones are accepted, and what is said of the others.

use crate::config;
use crate::config::{Config, ConfigError};
use crate::mounts;
use crate::mounts::MountExpectation;
use crate::percent::Percent;
use crate::text;
use vstd::arithmetic::power2::*;
use vstd::prelude::*;

verus! {

/// Whether `c` is an ASCII letter of either case, a digit, or one of `_ . @ : -`, told by its
/// code point.
pub open spec fn name_char(c: char) -> bool {
    let code = c as int;
    ||| 65 <= code <= 90
    ||| 97 <= code <= 122
    ||| 48 <= code <= 57
    ||| code == 95 || code == 46 || code == 64 || code == 58 || code == 45
}

/// Whether `unit` is a plain service name: a stem and `.service`, at most 255 characters in all,
/// name characters only, and no hyphen first.
pub open spec fn plain_service(unit: Seq<char>) -> bool {
    &&& unit.len() <= 255
    &&& exists|stem: Seq<char>| unit == #[trigger] (stem + ".service"@)
    &&& unit[0] != '-'
    &&& forall|i: int| 0 <= i < unit.len() ==> name_char(#[trigger] unit[i])
}

/// The two ways to say what a plain service name is agree.
proof fn lemma_plain_service(unit: Seq<char>)
    ensures
        config::safe_unit(unit) <==> plain_service(unit),
{
    reveal_strlit(".service");
    let suffix = ".service"@;
    let n = unit.len() - suffix.len();
    if config::safe_unit(unit) {
        let stem = unit.take(n);
        assert forall|k: int| 0 <= k < unit.len() implies unit[k] == (stem + suffix)[k] by {
            if k >= n {
                assert(unit.subrange(n, n + suffix.len())[k - n] == unit[k]);
            }
        }
        assert(unit == stem + suffix);
        assert forall|i: int| 0 <= i < unit.len() implies name_char(#[trigger] unit[i]) by {
            assert(config::unit_char(unit[i]));
        }
    }
    if plain_service(unit) {
        let stem = choose|stem: Seq<char>| unit == #[trigger] (stem + suffix);
        assert(unit.subrange(n, n + suffix.len()) == suffix);
        assert forall|i: int| 0 <= i < unit.len() implies config::unit_char(#[trigger] unit[i]) by {
            assert(name_char(unit[i]));
        }
    }
}

/// A unit name is accepted exactly where it is a plain service name: every one is accepted, and
/// nothing else.
pub proof fn every_plain_service_name_is_accepted(unit: &str, yes: bool)
    requires
        call_ensures(config::is_safe_unit, (unit,), yes),
    ensures
        yes <==> plain_service(unit@),
{
    lemma_plain_service(unit@);
}

/// A path is absolute exactly where a slash comes first.
pub proof fn absolute_paths_begin_with_a_slash(path: &str, yes: bool)
    requires
        call_ensures(config::is_absolute, (path,), yes),
    ensures
        yes <==> path@.len() > 0 && path@[0] == '/',
{
}

/// Whether `p` lies between 0 and 100, or is no number.
pub open spec fn percentage(p: Percent) -> bool {
    p.nan() || 0 <= p.units() <= 100 * pow2(1074)
}

/// Whether every unit that a configuration lists is a plain service name.
pub open spec fn plain_units(cfg: Config) -> bool {
    forall|i: int|
        0 <= i < cfg.shed_units@.len() ==> plain_service((#[trigger] cfg.shed_units@[i])@)
}

/// Whether `path` begins with a slash.
pub open spec fn from_the_root(path: Seq<char>) -> bool {
    path.len() > 0 && path[0] == '/'
}

/// Whether every path that a configuration expects something at begins with a slash.
pub open spec fn rooted_mounts(cfg: Config) -> bool {
    forall|i: int|
        0 <= i < cfg.mount_expectations@.len() ==> from_the_root(
            (#[trigger] cfg.mount_expectations@[i]).path@,
        )
}

/// All units are safe exactly where no first unsafe one is found.
proof fn lemma_units(cfg: Config)
    ensures
        plain_units(cfg) <==> config::first_unsafe(cfg.shed_units@) is None,
        rooted_mounts(cfg) <==> config::first_relative(cfg.mount_expectations@) is None,
{
    config::lemma_first_unsafe(cfg.shed_units@);
    config::lemma_first_relative(cfg.mount_expectations@);
    assert forall|i: int| 0 <= i < cfg.shed_units@.len() implies (plain_service(
        (#[trigger] cfg.shed_units@[i])@,
    ) <==> config::safe_unit(cfg.shed_units@[i]@)) by {
        lemma_plain_service(cfg.shed_units@[i]@);
    }
    if plain_units(cfg) {
        assert forall|i: int| 0 <= i < cfg.shed_units@.len() implies config::safe_unit(
            (#[trigger] cfg.shed_units@[i])@,
        ) by {
            assert(plain_service(cfg.shed_units@[i]@));
        }
    }
    if rooted_mounts(cfg) {
        assert forall|i: int| 0 <= i < cfg.mount_expectations@.len() implies config::absolute(
            (#[trigger] cfg.mount_expectations@[i]).path@,
        ) by {
            assert(from_the_root(cfg.mount_expectations@[i].path@));
        }
    }
}

/// A configuration that could be decoded is accepted exactly where the version is 1, at least one
/// sample and one second are asked for, the percentage is one, every unit is a plain service name
/// and every path begins at the root. It is then handed on as it was decoded; one that could not
/// be decoded is refused for that reason.
pub proof fn a_configuration_is_accepted_for_its_parts(
    decoded: Result<Config, String>,
    out: Result<Config, ConfigError>,
)
    requires
        call_ensures(config::parse, (decoded,), out),
    ensures
        match decoded {
            Err(why) => out matches Err(ConfigError::Parse(told)) && told@ == why@,
            Ok(cfg) => {
                let fine = {
                    &&& cfg.schema_version == 1
                    &&& cfg.consecutive_samples > 0
                    &&& cfg.poll_interval_sec > 0
                    &&& percentage(cfg.memory.full_psi_percent)
                    &&& plain_units(cfg)
                    &&& rooted_mounts(cfg)
                    &&& from_the_root(cfg.metrics_path@)
                    &&& from_the_root(cfg.incident_dir@)
                };
                if fine {
                    out == Ok::<Config, ConfigError>(cfg)
                } else {
                    out matches Err(ConfigError::Invalid(_))
                }
            },
        },
{
    if decoded is Ok {
        lemma_units(decoded->Ok_0);
    }
}

/// The first unit that is not safe is told.
proof fn lemma_first_unit(units: Seq<String>, i: int)
    requires
        0 <= i < units.len(),
        forall|j: int| 0 <= j < i ==> plain_service((#[trigger] units[j])@),
        !plain_service(units[i]@),
    ensures
        config::first_unsafe(units) == Some(units[i]@),
    decreases units.len(),
{
    lemma_plain_service(units[0]@);
    lemma_plain_service(units[i]@);
    if i > 0 {
        let rest = units.drop_first();
        assert(plain_service(units[0]@));
        assert forall|j: int| 0 <= j < i - 1 implies plain_service((#[trigger] rest[j])@) by {
            assert(rest[j] == units[j + 1]);
        }
        assert(rest[i - 1] == units[i]);
        lemma_first_unit(rest, i - 1);
    }
}

/// The first path that is not absolute is told.
proof fn lemma_first_path(all: Seq<MountExpectation>, i: int)
    requires
        0 <= i < all.len(),
        forall|j: int| 0 <= j < i ==> from_the_root((#[trigger] all[j]).path@),
        !from_the_root(all[i].path@),
    ensures
        config::first_relative(all) == Some(all[i].path@),
    decreases all.len(),
{
    if i > 0 {
        let rest = all.drop_first();
        assert(from_the_root(all[0].path@));
        assert forall|j: int| 0 <= j < i - 1 implies from_the_root((#[trigger] rest[j]).path@) by {
            assert(rest[j] == all[j + 1]);
        }
        assert(rest[i - 1] == all[i]);
        lemma_first_path(rest, i - 1);
    }
}

/// What is wrong is said of the first part that is wrong: version, samples, interval, percentage,
/// units, mount paths, then the paths of files.
pub proof fn a_refusal_says_what_is_wrong(
    cfg: Config,
    out: Result<Config, ConfigError>,
    unit: int,
    mount: int,
)
    requires
        call_ensures(config::parse, (Ok::<Config, String>(cfg),), out),
        0 <= unit < cfg.shed_units@.len() && !plain_service(cfg.shed_units@[unit]@) && (forall|
            j: int,
        |
            0 <= j < unit ==> plain_service((#[trigger] cfg.shed_units@[j])@)) || plain_units(cfg),
        0 <= mount < cfg.mount_expectations@.len() && !from_the_root(
            cfg.mount_expectations@[mount].path@,
        ) && (forall|j: int|
            0 <= j < mount ==> from_the_root((#[trigger] cfg.mount_expectations@[j]).path@))
            || rooted_mounts(cfg),
        out matches Err(_),
    ensures
        out matches Err(ConfigError::Invalid(told)) && told@ == if cfg.schema_version != 1 {
            "schema_version "@ + text::decimal(cfg.schema_version as nat)
                + " is not supported (expected "@ + text::decimal(1) + ")"@
        } else if cfg.consecutive_samples == 0 {
            "consecutive_samples must be at least 1, or every transient spike acts"@
        } else if cfg.poll_interval_sec == 0 {
            "poll_interval_sec must be at least 1"@
        } else if !percentage(cfg.memory.full_psi_percent) {
            "memory.full_psi_percent must be a percentage between 0 and 100"@
        } else if !plain_units(cfg) {
            "shed_units entry "@ + text::debug_text(cfg.shed_units@[unit]@)
                + " must be a plain *.service name"@
        } else if !rooted_mounts(cfg) {
            "mount_expectations path "@ + text::debug_text(cfg.mount_expectations@[mount].path@)
                + " must be absolute"@
        } else {
            "metrics_path and incident_dir must be absolute"@
        },
{
    lemma_units(cfg);
    if !plain_units(cfg) {
        lemma_first_unit(cfg.shed_units@, unit);
    }
    if !rooted_mounts(cfg) {
        lemma_first_path(cfg.mount_expectations@, mount);
    }
}

/// A refusal is reported as a matter of JSON or of what it says.
pub proof fn config_errors_say_their_kind(error: &ConfigError, text: String)
    requires
        call_ensures(ConfigError::message, (error,), text),
    ensures
        match error {
            ConfigError::Parse(e) => text@ == "config is not valid JSON: "@ + e@,
            ConfigError::Invalid(e) => text@ == "config is invalid: "@ + e@,
        },
{
}

/// What a configuration leaves out is two samples, thirty seconds, and the whole filesystem.
pub proof fn what_is_left_out_has_a_default(samples: u32, seconds: u64, root: String)
    requires
        call_ensures(config::default_samples, (), samples),
        call_ensures(config::default_poll, (), seconds),
        call_ensures(mounts::default_root, (), root),
    ensures
        samples == 2,
        seconds == 30,
        root@ == "/"@,
{
}

} // verus!
