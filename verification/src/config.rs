//! Configuration, rendered per host by whatever manages it (Ansible, by hand).
//!
//! Deliberately small. Disk, inode, CPU, IO and load thresholds and a restart
//! allowlist are covered by node-exporter alert rules or by systemd `Restart=`;
//! carrying them here too would only create two places to disagree.

use crate::actions::ActionPolicy;
use crate::mounts::MountExpectation;
use crate::pressure::EmergencyThresholds;
use crate::text;
use vstd::prelude::*;

verus! {

/// What the operator of a host asks for.
#[derive(Debug)]
pub struct Config {
    pub schema_version: u32,
    pub observe_only: bool,
    pub metrics_path: String,
    pub incident_dir: String,
    pub consecutive_samples: u32,
    pub poll_interval_sec: u64,
    pub memory: EmergencyThresholds,
    pub shed_units: Vec<String>,
    pub mount_expectations: Vec<MountExpectation>,
    pub actions: ActionPolicy,
}

/// How many evaluations in a row a condition must hold, where the configuration does not say.
pub fn default_samples() -> (samples: u32)
    ensures
        samples == 2,
{
    2
}

/// How many seconds lie between evaluations, where the configuration does not say.
pub fn default_poll() -> (seconds: u64)
    ensures
        seconds == 30,
{
    30
}

/// The version of the configuration format that is understood.
pub const SCHEMA_VERSION: u32 = 1;

/// Why a configuration was refused.
#[derive(Debug)]
pub enum ConfigError {
    Parse(String),
    Invalid(String),
}

impl ConfigError {
    /// The text that reports the error.
    pub fn message(&self) -> (text: String)
        ensures
            match self {
                ConfigError::Parse(e) => text@ == "config is not valid JSON: "@ + e@,
                ConfigError::Invalid(e) => text@ == "config is invalid: "@ + e@,
            },
    {
        match self {
            ConfigError::Parse(e) => {
                let mut text = "config is not valid JSON: ".to_owned();
                text.append(e.as_str());
                text
            },
            ConfigError::Invalid(e) => {
                let mut text = "config is invalid: ".to_owned();
                text.append(e.as_str());
                text
            },
        }
    }
}

/// Whether `c` may stand in a unit name.
pub open spec fn unit_char(c: char) -> bool {
    ||| '0' <= c <= '9'
    ||| 'A' <= c <= 'Z'
    ||| 'a' <= c <= 'z'
    ||| c == '_'
    ||| c == '.'
    ||| c == '@'
    ||| c == ':'
    ||| c == '-'
}

/// Whether `unit` is a plain service name: at most 255 unit characters that end in `.service`
/// and do not begin with a hyphen. (Unit characters are one byte each, so that is 255 bytes.)
pub open spec fn safe_unit(unit: Seq<char>) -> bool {
    &&& 0 < unit.len() <= 255
    &&& text::occurs_at(unit, ".service"@, unit.len() - ".service"@.len())
    &&& unit[0] != '-'
    &&& forall|i: int| 0 <= i < unit.len() ==> unit_char(#[trigger] unit[i])
}

/// Tells whether `c` may stand in a unit name.
fn is_unit_char(c: char) -> (yes: bool)
    ensures
        yes == unit_char(c),
{
    ('0' <= c && c <= '9') || ('A' <= c && c <= 'Z') || ('a' <= c && c <= 'z') || c == '_' || c
        == '.' || c == '@' || c == ':' || c == '-'
}

/// A unit name that reaches `systemctl stop` must be a plain service name.
/// Anything accepting shell metacharacters here would turn a config file into
/// arbitrary root execution. A leading '-' is an option to systemctl, not a
/// unit.
pub fn is_safe_unit(unit: &str) -> (yes: bool)
    ensures
        yes == safe_unit(unit@),
{
    let chars = text::chars_of(unit);
    let suffix = text::chars_of(".service");
    if chars.len() == 0 || chars.len() > 255 || chars.len() < suffix.len() || chars[0] == '-' {
        return false;
    }
    if !text::matches_at(chars.as_slice(), suffix.as_slice(), chars.len() - suffix.len()) {
        return false;
    }
    let mut i: usize = 0;
    while i < chars.len()
        invariant
            i <= chars.len(),
            chars@ == unit@,
            forall|k: int| 0 <= k < i ==> unit_char(#[trigger] chars@[k]),
        decreases chars.len() - i,
    {
        if !is_unit_char(chars[i]) {
            assert(!unit_char(unit@[i as int]));
            return false;
        }
        i += 1;
    }
    true
}

/// Whether a path begins at the root.
pub open spec fn absolute(path: Seq<char>) -> bool {
    path.len() > 0 && path[0] == '/'
}

/// Tells whether `path` begins at the root.
pub fn is_absolute(path: &str) -> (yes: bool)
    ensures
        yes == absolute(path@),
{
    let chars = text::chars_of(path);
    chars.len() > 0 && chars[0] == '/'
}

/// The first of the units that is not a plain service name.
pub open spec fn first_unsafe(units: Seq<String>) -> Option<Seq<char>>
    decreases units.len(),
{
    if units.len() == 0 {
        None
    } else if !safe_unit(units[0]@) {
        Some(units[0]@)
    } else {
        first_unsafe(units.drop_first())
    }
}

/// The first path of the expectations that is not absolute.
pub open spec fn first_relative(expectations: Seq<MountExpectation>) -> Option<Seq<char>>
    decreases expectations.len(),
{
    if expectations.len() == 0 {
        None
    } else if !absolute(expectations[0].path@) {
        Some(expectations[0].path@)
    } else {
        first_relative(expectations.drop_first())
    }
}

/// What is wrong with a configuration, if anything: the first of these that holds.
pub open spec fn fault(cfg: Config) -> Option<Seq<char>> {
    if cfg.schema_version != SCHEMA_VERSION {
        Some(
            "schema_version "@ + text::decimal(cfg.schema_version as nat)
                + " is not supported (expected "@ + text::decimal(SCHEMA_VERSION as nat) + ")"@,
        )
    } else if cfg.consecutive_samples == 0 {
        Some("consecutive_samples must be at least 1, or every transient spike acts"@)
    } else if cfg.poll_interval_sec == 0 {
        Some("poll_interval_sec must be at least 1"@)
    } else if !cfg.memory.full_psi_percent.in_range() {
        Some("memory.full_psi_percent must be a percentage between 0 and 100"@)
    } else if first_unsafe(cfg.shed_units@) is Some {
        Some(
            "shed_units entry "@ + text::debug_text(first_unsafe(cfg.shed_units@)->0)
                + " must be a plain *.service name"@,
        )
    } else if first_relative(cfg.mount_expectations@) is Some {
        Some(
            "mount_expectations path "@ + text::debug_text(
                first_relative(cfg.mount_expectations@)->0,
            ) + " must be absolute"@,
        )
    } else if !absolute(cfg.metrics_path@) || !absolute(cfg.incident_dir@) {
        Some("metrics_path and incident_dir must be absolute"@)
    } else {
        None
    }
}

/// Finds the first unit that is not a plain service name.
fn find_unsafe(units: &Vec<String>) -> (out: Option<usize>)
    ensures
        match out {
            Some(i) => i < units.len() && first_unsafe(units@) == Some(units[i as int]@),
            None => first_unsafe(units@) is None,
        },
{
    let mut i: usize = 0;
    assert(units@.skip(0) == units@);
    while i < units.len()
        invariant
            i <= units.len(),
            first_unsafe(units@) == first_unsafe(units@.skip(i as int)),
        decreases units.len() - i,
    {
        assert(units@.skip(i as int)[0] == units@[i as int]);
        assert(units@.skip(i as int).drop_first() == units@.skip(i + 1));
        if !is_safe_unit(units[i].as_str()) {
            return Some(i);
        }
        i += 1;
    }
    None
}

/// Finds the first expectation whose path is not absolute.
fn find_relative(expectations: &Vec<MountExpectation>) -> (out: Option<usize>)
    ensures
        match out {
            Some(i) => i < expectations.len() && first_relative(expectations@) == Some(
                expectations[i as int].path@,
            ),
            None => first_relative(expectations@) is None,
        },
{
    let mut i: usize = 0;
    assert(expectations@.skip(0) == expectations@);
    while i < expectations.len()
        invariant
            i <= expectations.len(),
            first_relative(expectations@) == first_relative(expectations@.skip(i as int)),
        decreases expectations.len() - i,
    {
        assert(expectations@.skip(i as int)[0] == expectations@[i as int]);
        assert(expectations@.skip(i as int).drop_first() == expectations@.skip(i + 1));
        if !is_absolute(expectations[i].path.as_str()) {
            return Some(i);
        }
        i += 1;
    }
    None
}

/// Judges a configuration: takes what decoding its JSON gave, and accepts it only if nothing is
/// wrong with it. An accepted configuration is handed on as it was decoded.
pub fn parse(decoded: Result<Config, String>) -> (out: Result<Config, ConfigError>)
    ensures
        match decoded {
            Err(error) => out matches Err(ConfigError::Parse(e)) && e@ == error@,
            Ok(cfg) => match fault(cfg) {
                Some(reason) => out matches Err(ConfigError::Invalid(e)) && e@ == reason,
                None => out == Ok::<Config, ConfigError>(cfg),
            },
        },
{
    let cfg = match decoded {
        Ok(cfg) => cfg,
        Err(error) => {
            return Err(ConfigError::Parse(error));
        },
    };
    if cfg.schema_version != SCHEMA_VERSION {
        let mut reason = "schema_version ".to_owned();
        reason.append(text::decimal_of(cfg.schema_version as u64).as_str());
        reason.append(" is not supported (expected ");
        reason.append(text::decimal_of(SCHEMA_VERSION as u64).as_str());
        reason.append(")");
        return Err(ConfigError::Invalid(reason));
    }
    if cfg.consecutive_samples == 0 {
        return Err(
            ConfigError::Invalid(
                "consecutive_samples must be at least 1, or every transient spike acts".to_owned(),
            ),
        );
    }
    if cfg.poll_interval_sec == 0 {
        return Err(ConfigError::Invalid("poll_interval_sec must be at least 1".to_owned()));
    }
    if !cfg.memory.full_psi_percent.is_in_range() {
        return Err(
            ConfigError::Invalid(
                "memory.full_psi_percent must be a percentage between 0 and 100".to_owned(),
            ),
        );
    }
    if let Some(i) = find_unsafe(&cfg.shed_units) {
        let mut reason = "shed_units entry ".to_owned();
        reason.append(text::quoted(cfg.shed_units[i].as_str()).as_str());
        reason.append(" must be a plain *.service name");
        return Err(ConfigError::Invalid(reason));
    }
    if let Some(i) = find_relative(&cfg.mount_expectations) {
        let mut reason = "mount_expectations path ".to_owned();
        reason.append(text::quoted(cfg.mount_expectations[i].path.as_str()).as_str());
        reason.append(" must be absolute");
        return Err(ConfigError::Invalid(reason));
    }
    if !is_absolute(cfg.metrics_path.as_str()) || !is_absolute(cfg.incident_dir.as_str()) {
        return Err(
            ConfigError::Invalid("metrics_path and incident_dir must be absolute".to_owned()),
        );
    }
    Ok(cfg)
}

/// Whether a configuration is sound in every part.
pub open spec fn sound(cfg: Config) -> bool {
    &&& cfg.schema_version == SCHEMA_VERSION
    &&& cfg.consecutive_samples >= 1
    &&& cfg.poll_interval_sec >= 1
    &&& cfg.memory.full_psi_percent.in_range()
    &&& forall|i: int| 0 <= i < cfg.shed_units.len() ==> safe_unit((#[trigger] cfg.shed_units[i])@)
    &&& forall|i: int|
        0 <= i < cfg.mount_expectations.len() ==> absolute(
            (#[trigger] cfg.mount_expectations[i]).path@,
        )
    &&& absolute(cfg.metrics_path@)
    &&& absolute(cfg.incident_dir@)
}

/// No unit is found unsafe exactly where all are safe.
pub(crate) proof fn lemma_first_unsafe(units: Seq<String>)
    ensures
        first_unsafe(units) is None <==> forall|i: int|
            0 <= i < units.len() ==> safe_unit((#[trigger] units[i])@),
    decreases units.len(),
{
    if units.len() != 0 {
        let rest = units.drop_first();
        lemma_first_unsafe(rest);
        if first_unsafe(units) is None {
            assert forall|i: int| 0 <= i < units.len() implies safe_unit((#[trigger] units[i])@) by {
                if i > 0 {
                    assert(units[i] == rest[i - 1]);
                }
            }
        }
        if forall|i: int| 0 <= i < units.len() ==> safe_unit((#[trigger] units[i])@) {
            assert(safe_unit(units[0]@));
            assert forall|i: int| 0 <= i < rest.len() implies safe_unit((#[trigger] rest[i])@) by {
                assert(rest[i] == units[i + 1]);
            }
        }
    }
}

/// No path is found relative exactly where all are absolute.
pub(crate) proof fn lemma_first_relative(expectations: Seq<MountExpectation>)
    ensures
        first_relative(expectations) is None <==> forall|i: int|
            0 <= i < expectations.len() ==> absolute((#[trigger] expectations[i]).path@),
    decreases expectations.len(),
{
    if expectations.len() != 0 {
        let rest = expectations.drop_first();
        lemma_first_relative(rest);
        if first_relative(expectations) is None {
            assert forall|i: int| 0 <= i < expectations.len() implies absolute(
                (#[trigger] expectations[i]).path@,
            ) by {
                if i > 0 {
                    assert(expectations[i] == rest[i - 1]);
                }
            }
        }
        if forall|i: int|
            0 <= i < expectations.len() ==> absolute((#[trigger] expectations[i]).path@) {
            assert(absolute(expectations[0].path@));
            assert forall|i: int| 0 <= i < rest.len() implies absolute(
                (#[trigger] rest[i]).path@,
            ) by {
                assert(rest[i] == expectations[i + 1]);
            }
        }
    }
}

/// A configuration is accepted exactly where it is sound in every part.
pub proof fn accepted_exactly_where_sound(cfg: Config)
    ensures
        fault(cfg) is None <==> sound(cfg),
{
    lemma_first_unsafe(cfg.shed_units@);
    lemma_first_relative(cfg.mount_expectations@);
}

/// Whether `c` means something to a shell, or separates the parts of a path.
pub open spec fn shell_char(c: char) -> bool {
    ||| c == ';' || c == '&' || c == '|' || c == '<' || c == '>' || c == '$' || c == '`'
    ||| c == '\\' || c == '"' || c == '\'' || c == '*' || c == '?' || c == '[' || c == ']'
    ||| c == '{' || c == '}' || c == '(' || c == ')' || c == '!' || c == '#' || c == '~'
    ||| c == '=' || c == '%' || c == '^' || c == '/' || c == '\0'
}

/// A unit name that is accepted is one plain word: none of its characters is white space or
/// means anything to a shell, it cannot be read as an option, and it names a service.
pub proof fn safe_unit_is_one_plain_word(unit: Seq<char>)
    requires
        safe_unit(unit),
    ensures
        unit[0] != '-',
        unit.skip(unit.len() - ".service"@.len()) == ".service"@,
        forall|i: int|
            0 <= i < unit.len() ==> !text::white_space(#[trigger] unit[i]) && !shell_char(unit[i]),
{
}

} // verus!
